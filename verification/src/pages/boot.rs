//! What the boot screen decides: the marks and styles of the probes, the
//! progress made, the probes' outcomes and the background.

use vstd::prelude::*;
use vstd::string::StringExecFns;
use crate::media::CheckStatus;

verus! {

broadcast use vstd::string::group_string_axioms;

/// The mark shown in front of a probe.
pub fn icon(s: CheckStatus) -> (r: &'static str)
    ensures
        r@ == (match s {
            CheckStatus::Pending => "·"@,
            CheckStatus::Passed => "✓"@,
            CheckStatus::Warn => "!"@,
            CheckStatus::Fail => "✗"@,
        }),
{
    match s {
        CheckStatus::Pending => "·",
        CheckStatus::Passed => "✓",
        CheckStatus::Warn => "!",
        CheckStatus::Fail => "✗",
    }
}

/// The style class of a probe's label.
pub fn class_for(s: CheckStatus) -> (r: &'static str)
    ensures
        r@ == (match s {
            CheckStatus::Pending => "check-text pending"@,
            CheckStatus::Passed => "check-text ok"@,
            CheckStatus::Warn => "check-text warn"@,
            CheckStatus::Fail => "check-text fail"@,
        }),
{
    match s {
        CheckStatus::Pending => "check-text pending",
        CheckStatus::Passed => "check-text ok",
        CheckStatus::Warn => "check-text warn",
        CheckStatus::Fail => "check-text fail",
    }
}

/// How many of the probes have an outcome.
pub open spec fn done_count(steps: Seq<CheckStatus>) -> nat
    decreases steps.len(),
{
    if steps.len() == 0 {
        0
    } else {
        done_count(steps.drop_last()) + if steps.last() == CheckStatus::Pending {
            0nat
        } else {
            1nat
        }
    }
}

/// The number of probes that are no longer pending; the progress bar shows
/// this share of all probes.
pub fn steps_done(steps: &[CheckStatus]) -> (r: usize)
    ensures
        r == done_count(steps@),
        r <= steps@.len(),
{
    let mut k: usize = 0;
    let mut done: usize = 0;
    while k < steps.len()
        invariant
            k <= steps@.len(),
            done == done_count(steps@.take(k as int)),
            done <= k,
        decreases steps@.len() - k,
    {
        assert(steps@.take(k + 1).drop_last() =~= steps@.take(k as int));
        if steps[k] != CheckStatus::Pending {
            done = done + 1;
        }
        k = k + 1;
    }
    assert(steps@.take(steps@.len() as int) =~= steps@);
    done
}

/// The outcome of the health check: passed when the request got a successful
/// response (`Some(true)`), a warning when the response was unsuccessful
/// (`Some(false)`) or the request failed (`None`).
pub fn health_status(response_ok: Option<bool>) -> (r: CheckStatus)
    ensures
        r == (if response_ok == Some(true) {
            CheckStatus::Passed
        } else {
            CheckStatus::Warn
        }),
{
    match response_ok {
        Some(true) => CheckStatus::Passed,
        _ => CheckStatus::Warn,
    }
}

/// The outcome of the video probe, from what the browser answers to "can you
/// play video/mp4": passed unless the answer is empty.
pub fn scene_status(can_play: &str) -> (r: CheckStatus)
    ensures
        r == (if can_play@.len() == 0 {
            CheckStatus::Warn
        } else {
            CheckStatus::Passed
        }),
{
    if can_play.is_empty() {
        CheckStatus::Warn
    } else {
        CheckStatus::Passed
    }
}

/// The CSS background of the boot screen for a background image URL.
pub open spec fn background_css(url: Seq<char>) -> Seq<char> {
    if url.len() == 0 {
        "none"@
    } else {
        "linear-gradient(120deg, rgba(0,0,0,0.82), rgba(0,0,0,0.55)), url('"@ + url + "')"@
    }
}

/// The CSS background of the boot screen: the image at `url` darkened by a
/// gradient, or none when there is no image.
pub fn boot_background_css(url: &str) -> (r: String)
    ensures
        r@ == background_css(url@),
{
    if url.is_empty() {
        return "none".to_string();
    }
    let s = "linear-gradient(120deg, rgba(0,0,0,0.82), rgba(0,0,0,0.55)), url('".to_string();
    let s = s.concat(url);
    s.concat("')")
}

/// Once no probe is pending every probe counts as done, so the progress bar
/// is full; while one is pending it is not.
pub proof fn lemma_progress_full_iff_none_pending(steps: Seq<CheckStatus>)
    ensures
        done_count(steps) <= steps.len(),
        (done_count(steps) == steps.len()) <==> (forall|i: int|
            0 <= i < steps.len() ==> #[trigger] steps[i] != CheckStatus::Pending),
    decreases steps.len(),
{
    if steps.len() > 0 {
        let init = steps.drop_last();
        lemma_progress_full_iff_none_pending(init);
        if done_count(steps) == steps.len() {
            assert forall|i: int| 0 <= i < steps.len() implies #[trigger] steps[i]
                != CheckStatus::Pending by {
                if i < steps.len() - 1 {
                    assert(steps[i] == init[i]);
                }
            }
        }
        if forall|i: int| 0 <= i < steps.len() ==> #[trigger] steps[i] != CheckStatus::Pending {
            assert forall|i: int| 0 <= i < init.len() implies #[trigger] init[i]
                != CheckStatus::Pending by {
                assert(init[i] == steps[i]);
            }
            assert(steps[steps.len() - 1] != CheckStatus::Pending);
        }
    }
}

} // verus!
