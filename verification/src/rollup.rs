//! Counter deltas over lookback windows that end at one shared instant.

use vstd::prelude::*;
use crate::delta::{amount, delta, delta_of};
use crate::log::{
    any_qualifies, earliest_of, is_earliest, is_latest, latest_of, lemma_boundaries_agree,
    lemma_boundaries_exist, lemma_earliest_unique, lemma_latest_unique, no_older, within, NoData,
    SampleLog,
};
use crate::sample::{Sample, SampleView};

verus! {

broadcast use vstd::string::to_string_from_display_ensures_for_str;

/// A named lookback period.
#[derive(Debug, Clone, PartialEq, Eq)]
pub struct Window {
    pub label: String,
    pub duration_ms: i64,
}

/// A window as a mathematical value.
pub struct WindowView {
    pub label: Seq<char>,
    pub duration_ms: int,
}

impl View for Window {
    type V = WindowView;

    open spec fn view(&self) -> WindowView {
        WindowView { label: self.label@, duration_ms: self.duration_ms as int }
    }
}

/// What the counters gained over one window.
///
/// A quantity is absent where it could not be determined: a reading was
/// missing, the counter was reset inside the window, or the window holds no
/// sample at all.
#[derive(Debug, Clone, PartialEq, Eq)]
pub struct Rollup {
    pub window_label: String,
    pub start_ts_ms: i64,
    pub end_ts_ms: i64,
    pub input_tokens: Option<u64>,
    pub output_tokens: Option<u64>,
    pub total_tokens: Option<u64>,
    pub net_rx_bytes: Option<u64>,
    pub net_tx_bytes: Option<u64>,
}

/// A rollup as a mathematical value.
pub struct RollupView {
    pub window_label: Seq<char>,
    pub start_ts_ms: int,
    pub end_ts_ms: int,
    pub input_tokens: Option<int>,
    pub output_tokens: Option<int>,
    pub total_tokens: Option<int>,
    pub net_rx_bytes: Option<int>,
    pub net_tx_bytes: Option<int>,
}

impl View for Rollup {
    type V = RollupView;

    open spec fn view(&self) -> RollupView {
        RollupView {
            window_label: self.window_label@,
            start_ts_ms: self.start_ts_ms as int,
            end_ts_ms: self.end_ts_ms as int,
            input_tokens: amount(self.input_tokens),
            output_tokens: amount(self.output_tokens),
            total_tokens: amount(self.total_tokens),
            net_rx_bytes: amount(self.net_rx_bytes),
            net_tx_bytes: amount(self.net_tx_bytes),
        }
    }
}

/// The windows of a vector as mathematical values, in their order.
pub open spec fn window_views(windows: Seq<Window>) -> Seq<WindowView> {
    windows.map_values(|w: Window| w@)
}

/// The rollups of a vector as mathematical values, in their order.
pub open spec fn rollup_views(rollups: Seq<Rollup>) -> Seq<RollupView> {
    rollups.map_values(|r: Rollup| r@)
}

/// The rollup between two boundary samples: it spans the timestamps of the
/// samples themselves, and each quantity is the gain of its counter from the
/// first sample to the last.
pub open spec fn rollup_between(label: Seq<char>, first: SampleView, last: SampleView) -> RollupView {
    RollupView {
        window_label: label,
        start_ts_ms: first.ts_ms,
        end_ts_ms: last.ts_ms,
        input_tokens: delta_of(first.input_tokens, last.input_tokens),
        output_tokens: delta_of(first.output_tokens, last.output_tokens),
        total_tokens: delta_of(first.total_tokens, last.total_tokens),
        net_rx_bytes: delta_of(first.net_rx_bytes, last.net_rx_bytes),
        net_tx_bytes: delta_of(first.net_tx_bytes, last.net_tx_bytes),
    }
}

/// The rollup of a window in which nothing was observed: it spans the edges
/// that were asked for, and every quantity is absent.
pub open spec fn rollup_without_data(label: Seq<char>, start: int, end: int) -> RollupView {
    RollupView {
        window_label: label,
        start_ts_ms: start,
        end_ts_ms: end,
        input_tokens: None,
        output_tokens: None,
        total_tokens: None,
        net_rx_bytes: None,
        net_tx_bytes: None,
    }
}

/// The unlabelled rollup of the closed interval from `start` to `end`, if the
/// log holds a sample in it.
pub open spec fn window_delta_of(log: Seq<SampleView>, start: int, end: int) -> Option<RollupView> {
    if any_qualifies(log, within(start, end)) {
        Some(
            rollup_between(
                Seq::empty(),
                log[earliest_of(log, within(start, end))],
                log[latest_of(log, within(start, end))],
            ),
        )
    } else {
        None
    }
}

/// The rollup of window `w` as it ends at `now`.
pub open spec fn rollup_of(log: Seq<SampleView>, now: int, w: WindowView) -> RollupView {
    let start = now - w.duration_ms;
    if any_qualifies(log, within(start, now)) {
        rollup_between(
            w.label,
            log[earliest_of(log, within(start, now))],
            log[latest_of(log, within(start, now))],
        )
    } else {
        rollup_without_data(w.label, start, now)
    }
}

/// One rollup per window, in the order of the windows.
pub open spec fn rollups_of(log: Seq<SampleView>, now: int, windows: Seq<WindowView>) -> Seq<RollupView> {
    Seq::new(windows.len(), |k: int| rollup_of(log, now, windows[k]))
}

/// The three standard windows: one, three and seven days.
pub open spec fn default_window_views() -> Seq<WindowView> {
    seq![
        WindowView { label: "1d"@, duration_ms: 86_400_000 },
        WindowView { label: "3d"@, duration_ms: 259_200_000 },
        WindowView { label: "7d"@, duration_ms: 604_800_000 },
    ]
}

impl Rollup {
    /// The rollup between two boundary samples.
    pub fn between(label: String, first: &Sample, last: &Sample) -> (r: Rollup)
        ensures
            r@ == rollup_between(label@, first@, last@),
    {
        Rollup {
            window_label: label,
            start_ts_ms: first.ts_ms,
            end_ts_ms: last.ts_ms,
            input_tokens: delta(first.input_tokens, last.input_tokens),
            output_tokens: delta(first.output_tokens, last.output_tokens),
            total_tokens: delta(first.total_tokens, last.total_tokens),
            net_rx_bytes: delta(first.net_rx_bytes, last.net_rx_bytes),
            net_tx_bytes: delta(first.net_tx_bytes, last.net_tx_bytes),
        }
    }

    /// The rollup of a window in which nothing was observed.
    pub fn without_data(label: String, start_ms: i64, end_ms: i64) -> (r: Rollup)
        ensures
            r@ == rollup_without_data(label@, start_ms as int, end_ms as int),
    {
        Rollup {
            window_label: label,
            start_ts_ms: start_ms,
            end_ts_ms: end_ms,
            input_tokens: None,
            output_tokens: None,
            total_tokens: None,
            net_rx_bytes: None,
            net_tx_bytes: None,
        }
    }
}

/// Looks up the boundary samples of the closed interval from `start_ms` to
/// `end_ms` and computes the gains between them, under an empty label.
pub fn get_window_delta(log: &SampleLog, start_ms: i64, end_ms: i64) -> (r: Result<Rollup, NoData>)
    ensures
        window_delta_of(log@, start_ms as int, end_ms as int) == match r {
            Ok(rollup) => Some(rollup@),
            Err(_) => None::<RollupView>,
        },
{
    match log.boundary(start_ms, end_ms) {
        Ok((first, last)) => Ok(Rollup::between(String::new(), first, last)),
        Err(e) => Err(e),
    }
}

/// The three standard windows, shortest first.
pub fn default_windows() -> (windows: Vec<Window>)
    ensures
        window_views(windows@) == default_window_views(),
{
    let mut windows: Vec<Window> = Vec::new();
    windows.push(Window { label: "1d".to_string(), duration_ms: 86_400_000 });
    windows.push(Window { label: "3d".to_string(), duration_ms: 259_200_000 });
    windows.push(Window { label: "7d".to_string(), duration_ms: 604_800_000 });
    assert(window_views(windows@) =~= default_window_views());
    windows
}

/// The rollups of `windows`, each ending at `now_ms`.
///
/// A window without samples is no failure: its rollup spans the edges that
/// were asked for and every quantity in it is absent.
pub fn rollups_for(log: &SampleLog, now_ms: i64, windows: &Vec<Window>) -> (out: Vec<Rollup>)
    requires
        forall|k: int| 0 <= k < windows.len() ==> i64::MIN <= now_ms - (#[trigger] windows[k]).duration_ms <= i64::MAX,
    ensures
        out.len() == windows.len(),
        rollup_views(out@) == rollups_of(log@, now_ms as int, window_views(windows@)),
{
    let mut out: Vec<Rollup> = Vec::new();
    let mut k: usize = 0;
    while k < windows.len()
        invariant
            0 <= k <= windows.len(),
            out.len() == k,
            forall|m: int| 0 <= m < windows.len() ==> i64::MIN <= now_ms - (#[trigger] windows[m]).duration_ms <= i64::MAX,
            forall|m: int| 0 <= m < k ==> (#[trigger] out[m])@ == rollup_of(log@, now_ms as int, windows[m]@),
        decreases windows.len() - k,
    {
        let w: &Window = &windows[k];
        let start: i64 = now_ms - w.duration_ms;
        let rollup: Rollup = match get_window_delta(log, start, now_ms) {
            Ok(found) => {
                let mut r: Rollup = found;
                r.window_label = w.label.clone();
                r
            },
            Err(_) => Rollup::without_data(w.label.clone(), start, now_ms),
        };
        assert(rollup@ == rollup_of(log@, now_ms as int, w@));
        out.push(rollup);
        k += 1;
    }
    assert(rollup_views(out@) =~= rollups_of(log@, now_ms as int, window_views(windows@)));
    out
}

/// The rollups of the three standard windows, each ending at `now_ms`.
pub fn get_rollups(log: &SampleLog, now_ms: i64) -> (out: Vec<Rollup>)
    requires
        now_ms - 604_800_000 >= i64::MIN,
    ensures
        out.len() == 3,
        rollup_views(out@) == rollups_of(log@, now_ms as int, default_window_views()),
{
    let windows: Vec<Window> = default_windows();
    assert forall|k: int| 0 <= k < windows.len() implies (#[trigger] windows[k]).duration_ms
        <= 604_800_000 && windows[k].duration_ms >= 0 by {
        let views = window_views(windows@);
        assert(views.len() == 3);
        assert(views[k] == windows[k]@);
    }
    rollups_for(log, now_ms, &windows)
}

/// On a log without samples every window still has its rollup, in the order
/// of the windows: it spans the edges that were asked for and every quantity
/// in it is absent.
pub proof fn lemma_rollups_of_empty_log(now: int, windows: Seq<WindowView>)
    ensures
        rollups_of(Seq::empty(), now, windows).len() == windows.len(),
        forall|k: int|
            0 <= k < windows.len() ==> #[trigger] rollups_of(Seq::empty(), now, windows)[k]
                == rollup_without_data(windows[k].label, now - windows[k].duration_ms, now),
{
}

/// Every window has its rollup under its own label, in the order of the
/// windows, whatever the log holds.
pub proof fn lemma_rollups_follow_windows(log: Seq<SampleView>, now: int, windows: Seq<WindowView>)
    ensures
        rollups_of(log, now, windows).len() == windows.len(),
        forall|k: int|
            0 <= k < windows.len() ==> (#[trigger] rollups_of(log, now, windows)[k]).window_label
                == windows[k].label,
{
}

/// Asking twice on an unchanged log, at `now1` and at `now2`: where every
/// window holds the same samples at both instants, a rollup with data is the
/// same both times, and a rollup without data differs only by the edges that
/// were asked for.
pub proof fn lemma_rollups_are_stable(log: Seq<SampleView>, now1: int, now2: int, windows: Seq<WindowView>)
    requires
        forall|j: int, k: int|
            #![trigger log[j], windows[k]]
            0 <= j < log.len() && 0 <= k < windows.len() ==> ((now1 - windows[k].duration_ms
                <= log[j].ts_ms <= now1) <==> (now2 - windows[k].duration_ms <= log[j].ts_ms
                <= now2)),
    ensures
        rollups_of(log, now1, windows).len() == rollups_of(log, now2, windows).len(),
        forall|k: int|
            #![trigger windows[k]]
            0 <= k < windows.len() ==> {
                let start1 = now1 - windows[k].duration_ms;
                let start2 = now2 - windows[k].duration_ms;
                let r1 = rollups_of(log, now1, windows)[k];
                let r2 = rollups_of(log, now2, windows)[k];
                if any_qualifies(log, within(start1, now1)) {
                    r1 == r2
                } else {
                    &&& r1 == rollup_without_data(windows[k].label, start1, now1)
                    &&& r2 == rollup_without_data(windows[k].label, start2, now2)
                }
            },
{
    assert forall|k: int| #![trigger windows[k]] 0 <= k < windows.len() implies {
        let start1 = now1 - windows[k].duration_ms;
        let start2 = now2 - windows[k].duration_ms;
        let r1 = rollups_of(log, now1, windows)[k];
        let r2 = rollups_of(log, now2, windows)[k];
        if any_qualifies(log, within(start1, now1)) {
            r1 == r2
        } else {
            &&& r1 == rollup_without_data(windows[k].label, start1, now1)
            &&& r2 == rollup_without_data(windows[k].label, start2, now2)
        }
    } by {
        let q1 = within(now1 - windows[k].duration_ms, now1);
        let q2 = within(now2 - windows[k].duration_ms, now2);
        assert forall|j: int| 0 <= j < log.len() implies q1(#[trigger] log[j]) == q2(log[j]) by {
            let w = windows[k];
            assert((now1 - w.duration_ms <= log[j].ts_ms <= now1) <==> (now2 - w.duration_ms
                <= log[j].ts_ms <= now2));
        }
        lemma_boundaries_agree(log, q1, q2);
    }
}

/// Asking again later on a log that holds nothing from the future: a window
/// that still holds a sample ends at the same observed sample as before.
pub proof fn lemma_observed_end_is_stable(log: Seq<SampleView>, now1: int, now2: int, w: WindowView)
    requires
        now1 <= now2,
        forall|j: int| 0 <= j < log.len() ==> (#[trigger] log[j]).ts_ms <= now1,
        any_qualifies(log, within(now2 - w.duration_ms, now2)),
    ensures
        any_qualifies(log, within(now1 - w.duration_ms, now1)),
        rollup_of(log, now1, w).end_ts_ms == rollup_of(log, now2, w).end_ts_ms,
        rollup_of(log, now1, w).start_ts_ms <= rollup_of(log, now2, w).start_ts_ms,
{
    let q1 = within(now1 - w.duration_ms, now1);
    let q2 = within(now2 - w.duration_ms, now2);
    lemma_boundaries_exist(log, q2);
    let l2 = latest_of(log, q2);
    let e2 = earliest_of(log, q2);
    assert(q1(log[l2]) && q1(log[e2]));
    assert(is_latest(log, q1, l2)) by {
        assert forall|j: int| 0 <= j < log.len() && #[trigger] q1(log[j]) implies no_older(log, l2, j) by {
            if !q2(log[j]) {
                assert(log[j].ts_ms < log[l2].ts_ms);
            }
        }
    }
    lemma_latest_unique(log, q1, l2);
    lemma_boundaries_exist(log, q1);
    let e1 = earliest_of(log, q1);
    assert(no_older(log, e2, e1));
}

/// A window that holds exactly one sample starts and ends at it, and every
/// quantity of its rollup is zero where the reading is present and absent
/// where it is not.
pub proof fn lemma_window_of_one_sample(log: Seq<SampleView>, start: int, end: int, i: int)
    requires
        0 <= i < log.len(),
        start <= log[i].ts_ms <= end,
        forall|j: int| 0 <= j < log.len() && j != i ==> !(start <= (#[trigger] log[j]).ts_ms <= end),
    ensures
        window_delta_of(log, start, end) == Some(rollup_between(Seq::empty(), log[i], log[i])),
        ({
            let r = rollup_between(Seq::empty(), log[i], log[i]);
            &&& r.start_ts_ms == log[i].ts_ms
            &&& r.end_ts_ms == log[i].ts_ms
            &&& r.input_tokens == if log[i].input_tokens is Some { Some(0int) } else { None }
            &&& r.output_tokens == if log[i].output_tokens is Some { Some(0int) } else { None }
            &&& r.total_tokens == if log[i].total_tokens is Some { Some(0int) } else { None }
            &&& r.net_rx_bytes == if log[i].net_rx_bytes is Some { Some(0int) } else { None }
            &&& r.net_tx_bytes == if log[i].net_tx_bytes is Some { Some(0int) } else { None }
        }),
{
    let q = within(start, end);
    assert(q(log[i]));
    assert(is_latest(log, q, i) && is_earliest(log, q, i));
    lemma_latest_unique(log, q, i);
    lemma_earliest_unique(log, q, i);
}

} // verus!
