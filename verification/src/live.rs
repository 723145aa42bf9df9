//! The most recent sample and the rates at which its session is consuming.

use vstd::prelude::*;
use crate::delta::{delta, delta_of, reading};
use crate::log::{
    any_qualifies, any_sample, earlier_in_session, is_latest, latest_of, lemma_latest_unique,
    NoData, SampleLog,
};
use crate::sample::{copy_text, text, Sample, SampleView};

verus! {

/// An amount gained over a positive stretch of time.
///
/// The rate per second is `amount * 1000 / elapsed_ms`; it is kept as the two
/// integers it was measured from, so that nothing is rounded here.
#[derive(Debug, Clone, Copy, PartialEq, Eq)]
pub struct Rate {
    pub amount: u64,
    pub elapsed_ms: u64,
}

/// A rate as a mathematical value.
pub struct RateView {
    pub amount: int,
    pub elapsed_ms: int,
}

impl View for Rate {
    type V = RateView;

    open spec fn view(&self) -> RateView {
        RateView { amount: self.amount as int, elapsed_ms: self.elapsed_ms as int }
    }
}

/// An optional rate as a mathematical value.
pub open spec fn rate_view(x: Option<Rate>) -> Option<RateView> {
    match x {
        Some(r) => Some(r@),
        None => None,
    }
}

/// The latest observed state with the current throughput, where it can be derived.
#[derive(Debug, Clone, PartialEq, Eq)]
pub struct LiveMetrics {
    pub ts_ms: i64,
    pub session_key: Option<String>,
    pub model: Option<String>,
    pub input_tokens: Option<i64>,
    pub output_tokens: Option<i64>,
    pub total_tokens: Option<i64>,
    pub remaining_tokens: Option<i64>,
    pub context_tokens: Option<i64>,
    pub percent_used: Option<i64>,
    pub tokens_per_s: Option<Rate>,
    pub in_tokens_per_s: Option<Rate>,
    pub out_tokens_per_s: Option<Rate>,
    pub net_rx_bytes_per_s: Option<Rate>,
    pub net_tx_bytes_per_s: Option<Rate>,
}

/// Live metrics as a mathematical value.
pub struct LiveMetricsView {
    pub ts_ms: int,
    pub session_key: Option<Seq<char>>,
    pub model: Option<Seq<char>>,
    pub input_tokens: Option<int>,
    pub output_tokens: Option<int>,
    pub total_tokens: Option<int>,
    pub remaining_tokens: Option<int>,
    pub context_tokens: Option<int>,
    pub percent_used: Option<int>,
    pub tokens_per_s: Option<RateView>,
    pub in_tokens_per_s: Option<RateView>,
    pub out_tokens_per_s: Option<RateView>,
    pub net_rx_bytes_per_s: Option<RateView>,
    pub net_tx_bytes_per_s: Option<RateView>,
}

impl View for LiveMetrics {
    type V = LiveMetricsView;

    open spec fn view(&self) -> LiveMetricsView {
        LiveMetricsView {
            ts_ms: self.ts_ms as int,
            session_key: text(self.session_key),
            model: text(self.model),
            input_tokens: reading(self.input_tokens),
            output_tokens: reading(self.output_tokens),
            total_tokens: reading(self.total_tokens),
            remaining_tokens: reading(self.remaining_tokens),
            context_tokens: reading(self.context_tokens),
            percent_used: reading(self.percent_used),
            tokens_per_s: rate_view(self.tokens_per_s),
            in_tokens_per_s: rate_view(self.in_tokens_per_s),
            out_tokens_per_s: rate_view(self.out_tokens_per_s),
            net_rx_bytes_per_s: rate_view(self.net_rx_bytes_per_s),
            net_tx_bytes_per_s: rate_view(self.net_tx_bytes_per_s),
        }
    }
}

/// An optional borrowed sample as a mathematical value.
pub open spec fn prior_view(prior: Option<&Sample>) -> Option<SampleView> {
    match prior {
        Some(p) => Some(p@),
        None => None,
    }
}

/// The time in milliseconds over which rates can be measured.
///
/// There is none when the latest sample belongs to no session, when it has no
/// prior sample, or when the prior sample is not strictly older.
pub open spec fn elapsed_between(latest: SampleView, prior: Option<SampleView>) -> Option<int> {
    match (latest.session_key, prior) {
        (Some(_), Some(p)) => if p.ts_ms < latest.ts_ms {
            Some(latest.ts_ms - p.ts_ms)
        } else {
            None
        },
        _ => None,
    }
}

/// The rate of a counter: its gain between the two readings over the elapsed
/// time, where the gain is known.
pub open spec fn rate_of(earlier: Option<int>, later: Option<int>, elapsed: int) -> Option<RateView> {
    match delta_of(earlier, later) {
        Some(d) => Some(RateView { amount: d, elapsed_ms: elapsed }),
        None => None,
    }
}

/// The live metrics that report `latest` as it was recorded, without any rate.
pub open spec fn unmeasured(latest: SampleView) -> LiveMetricsView {
    LiveMetricsView {
        ts_ms: latest.ts_ms,
        session_key: latest.session_key,
        model: latest.model,
        input_tokens: latest.input_tokens,
        output_tokens: latest.output_tokens,
        total_tokens: latest.total_tokens,
        remaining_tokens: latest.remaining_tokens,
        context_tokens: latest.context_tokens,
        percent_used: latest.percent_used,
        tokens_per_s: None,
        in_tokens_per_s: None,
        out_tokens_per_s: None,
        net_rx_bytes_per_s: None,
        net_tx_bytes_per_s: None,
    }
}

/// The live metrics that report `latest` as it was recorded, with the rate of
/// each counter since `prior`, which was taken `elapsed` milliseconds earlier.
pub open spec fn measured(latest: SampleView, prior: SampleView, elapsed: int) -> LiveMetricsView {
    LiveMetricsView {
        tokens_per_s: rate_of(prior.total_tokens, latest.total_tokens, elapsed),
        in_tokens_per_s: rate_of(prior.input_tokens, latest.input_tokens, elapsed),
        out_tokens_per_s: rate_of(prior.output_tokens, latest.output_tokens, elapsed),
        net_rx_bytes_per_s: rate_of(prior.net_rx_bytes, latest.net_rx_bytes, elapsed),
        net_tx_bytes_per_s: rate_of(prior.net_tx_bytes, latest.net_tx_bytes, elapsed),
        ..unmeasured(latest)
    }
}

/// The live metrics of `latest`, with rates measured against `prior` where
/// there is a time to measure them over.
pub open spec fn metrics_from(latest: SampleView, prior: Option<SampleView>) -> LiveMetricsView {
    match (elapsed_between(latest, prior), prior) {
        (Some(elapsed), Some(p)) => measured(latest, p, elapsed),
        _ => unmeasured(latest),
    }
}

/// No rate of `m` is present.
pub open spec fn no_rates(m: LiveMetricsView) -> bool {
    &&& m.tokens_per_s is None
    &&& m.in_tokens_per_s is None
    &&& m.out_tokens_per_s is None
    &&& m.net_rx_bytes_per_s is None
    &&& m.net_tx_bytes_per_s is None
}

/// The sample against which the rates of `latest` are measured: the most
/// recent one of the same session that is strictly older.
pub open spec fn prior_of(log: Seq<SampleView>, latest: SampleView) -> Option<SampleView> {
    match latest.session_key {
        Some(key) => if any_qualifies(log, earlier_in_session(key, latest.ts_ms)) {
            Some(log[latest_of(log, earlier_in_session(key, latest.ts_ms))])
        } else {
            None
        },
        None => None,
    }
}

/// The live metrics of a log, if it holds a sample.
pub open spec fn live_metrics_of(log: Seq<SampleView>) -> Option<LiveMetricsView> {
    if log.len() == 0 {
        None
    } else {
        let latest = log[latest_of(log, any_sample())];
        Some(metrics_from(latest, prior_of(log, latest)))
    }
}

/// Computes the rate of a counter from two readings and the time that
/// elapsed between them, which is positive.
pub fn rate(earlier: Option<i64>, later: Option<i64>, elapsed_ms: u64) -> (r: Option<Rate>)
    requires
        elapsed_ms > 0,
    ensures
        rate_view(r) == rate_of(reading(earlier), reading(later), elapsed_ms as int),
{
    match delta(earlier, later) {
        Some(d) => Some(Rate { amount: d, elapsed_ms }),
        None => None,
    }
}

impl LiveMetrics {
    /// Reports `latest` as it was recorded and measures its rates against `prior`.
    pub fn assemble(latest: &Sample, prior: Option<&Sample>) -> (m: LiveMetrics)
        ensures
            m@ == metrics_from(latest@, prior_view(prior)),
    {
        let mut m: LiveMetrics = LiveMetrics {
            ts_ms: latest.ts_ms,
            session_key: copy_text(&latest.session_key),
            model: copy_text(&latest.model),
            input_tokens: latest.input_tokens,
            output_tokens: latest.output_tokens,
            total_tokens: latest.total_tokens,
            remaining_tokens: latest.remaining_tokens,
            context_tokens: latest.context_tokens,
            percent_used: latest.percent_used,
            tokens_per_s: None,
            in_tokens_per_s: None,
            out_tokens_per_s: None,
            net_rx_bytes_per_s: None,
            net_tx_bytes_per_s: None,
        };
        if latest.session_key.is_some() {
            if let Some(p) = prior {
                if p.ts_ms < latest.ts_ms {
                    let span: i128 = latest.ts_ms as i128 - p.ts_ms as i128;
                    let elapsed: u64 = span as u64;
                    m.tokens_per_s = rate(p.total_tokens, latest.total_tokens, elapsed);
                    m.in_tokens_per_s = rate(p.input_tokens, latest.input_tokens, elapsed);
                    m.out_tokens_per_s = rate(p.output_tokens, latest.output_tokens, elapsed);
                    m.net_rx_bytes_per_s = rate(p.net_rx_bytes, latest.net_rx_bytes, elapsed);
                    m.net_tx_bytes_per_s = rate(p.net_tx_bytes, latest.net_tx_bytes, elapsed);
                }
            }
        }
        m
    }
}

/// The live metrics of the log: its most recent sample, with rates measured
/// against the prior sample of the same session.
pub fn get_live_metrics(log: &SampleLog) -> (r: Result<LiveMetrics, NoData>)
    ensures
        live_metrics_of(log@) == match r {
            Ok(m) => Some(m@),
            Err(_) => None::<LiveMetricsView>,
        },
{
    let latest: &Sample = match log.latest() {
        Ok(s) => s,
        Err(e) => {
            return Err(e);
        },
    };
    let prior: Option<&Sample> = match &latest.session_key {
        Some(key) => match log.prior_in_session(key, latest.ts_ms) {
            Ok(p) => Some(p),
            Err(_) => None,
        },
        None => None,
    };
    Ok(LiveMetrics::assemble(latest, prior))
}

/// Without a strictly older prior sample there is no elapsed time to divide
/// by, and no rate is reported.
pub proof fn lemma_no_rates_without_elapsed_time(latest: SampleView, prior: Option<SampleView>)
    requires
        prior is Some ==> prior.unwrap().ts_ms >= latest.ts_ms,
    ensures
        metrics_from(latest, prior) == unmeasured(latest),
        no_rates(unmeasured(latest)),
{
}

/// A rate that is reported was measured over a positive time, the same for
/// all five, and its amount is not negative.
pub proof fn lemma_rates_are_measured(latest: SampleView, prior: Option<SampleView>, r: RateView)
    requires
        ({
            let m = metrics_from(latest, prior);
            ||| m.tokens_per_s == Some(r)
            ||| m.in_tokens_per_s == Some(r)
            ||| m.out_tokens_per_s == Some(r)
            ||| m.net_rx_bytes_per_s == Some(r)
            ||| m.net_tx_bytes_per_s == Some(r)
        }),
    ensures
        r.amount >= 0,
        r.elapsed_ms > 0,
        prior is Some,
        r.elapsed_ms == latest.ts_ms - prior.unwrap().ts_ms,
{
}

/// On a log of exactly one sample the live metrics report that sample as it
/// was recorded and no rate.
pub proof fn lemma_single_sample_has_no_rates(log: Seq<SampleView>)
    requires
        log.len() == 1,
    ensures
        live_metrics_of(log) == Some(unmeasured(log[0])),
{
    assert(is_latest(log, any_sample(), 0));
    lemma_latest_unique(log, any_sample(), 0);
    assert(prior_of(log, log[0]) is None) by {
        if log[0].session_key is Some {
            let q = earlier_in_session(log[0].session_key.unwrap(), log[0].ts_ms);
            assert forall|j: int| 0 <= j < log.len() implies !#[trigger] q(log[j]) by {
                assert(j == 0);
            }
        }
    }
}

/// Where no sample of the latest sample's session is strictly older than it,
/// as when the two most recent samples of the session carry one timestamp and
/// the session has no others, no rate is reported.
pub proof fn lemma_no_rates_without_older_sample(log: Seq<SampleView>)
    requires
        log.len() > 0,
        ({
            let latest = log[latest_of(log, any_sample())];
            forall|j: int|
                0 <= j < log.len() && (#[trigger] log[j]).session_key == latest.session_key
                    ==> log[j].ts_ms >= latest.ts_ms
        }),
    ensures
        live_metrics_of(log) == Some(unmeasured(log[latest_of(log, any_sample())])),
{
    let latest = log[latest_of(log, any_sample())];
    assert(prior_of(log, latest) is None) by {
        if latest.session_key is Some {
            let q = earlier_in_session(latest.session_key.unwrap(), latest.ts_ms);
            assert forall|j: int| 0 <= j < log.len() implies !#[trigger] q(log[j]) by {
                if q(log[j]) {
                    assert(log[j].session_key == latest.session_key);
                }
            }
        }
    }
}

} // verus!
