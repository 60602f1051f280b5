//! Reconciliation: which workouts of a fetched history page a periodic pass
//! feeds through processing again.
use vstd::prelude::*;
use crate::intake::ProcessedWorkouts;
use crate::models::WorkoutResponse;

verus! {

/// How far back, in seconds, a reconciliation pass looks.
pub const RECONCILE_WINDOW_SECONDS: i64 = 86400;

/// The instant an RFC 3339 timestamp denotes, as Unix seconds and the
/// nanoseconds within that second; `None` for a malformed timestamp.
pub uninterp spec fn rfc3339_instant_of(text: Seq<char>) -> Option<(i64, u32)>;

/// Relies on chrono's `DateTime::parse_from_rfc3339`, read back through
/// `timestamp` and `timestamp_subsec_nanos`: what a text parses to depends
/// on the text alone.
#[verifier::external_body]
fn parse_rfc3339(text: &str) -> (r: Option<(i64, u32)>)
    ensures
        r == rfc3339_instant_of(text@),
{
    chrono::DateTime::parse_from_rfc3339(text).ok().map(|d| (d.timestamp(), d.timestamp_subsec_nanos()))
}

/// An instant (seconds, nanoseconds) strictly later than a day before `now`.
pub open spec fn within_window(created: Option<(i64, u32)>, now: (i64, u32)) -> bool {
    match created {
        Some(c) => c.0 > now.0 - RECONCILE_WINDOW_SECONDS || (c.0 == now.0
            - RECONCILE_WINDOW_SECONDS && c.1 > now.1),
        None => false,
    }
}

/// Whether a workout created at `created` (`None`: no readable creation
/// time) falls within the window of a pass run at `now`.
pub fn is_recent(created: Option<(i64, u32)>, now: (i64, u32)) -> (r: bool)
    ensures
        r == within_window(created, now),
{
    match created {
        Some(c) => {
            let cutoff: i128 = now.0 as i128 - RECONCILE_WINDOW_SECONDS as i128;
            (c.0 as i128) > cutoff || ((c.0 as i128) == cutoff && c.1 > now.1)
        },
        None => false,
    }
}

/// The ids that a pass run at `now` feeds through processing, in page
/// order: those of workouts created within the window and not yet handled.
pub open spec fn selected(ws: Seq<WorkoutResponse>, now: (i64, u32), processed: Set<Seq<char>>) -> Seq<
    Seq<char>,
>
    decreases ws.len(),
{
    if ws.len() == 0 {
        Seq::empty()
    } else {
        let w = ws.last();
        let rest = selected(ws.drop_last(), now, processed);
        if within_window(rfc3339_instant_of(w.created_at@), now) && !processed.contains(w.id@) {
            rest.push(w.id@)
        } else {
            rest
        }
    }
}

/// The ids of the page's workouts that a pass run at `now` processes.
pub fn select_for_sync(workouts: &Vec<WorkoutResponse>, now: (i64, u32), processed: &ProcessedWorkouts) -> (r: Vec<String>)
    ensures
        r@.len() == selected(workouts@, now, processed@).len(),
        forall|i: int| 0 <= i < r@.len() ==> #[trigger] r@[i]@ == selected(workouts@, now, processed@)[i],
{
    let mut out: Vec<String> = Vec::new();
    let mut i: usize = 0;
    while i < workouts.len()
        invariant
            i <= workouts@.len(),
            out@.len() == selected(workouts@.subrange(0, i as int), now, processed@).len(),
            forall|k: int|
                0 <= k < out@.len() ==> #[trigger] out@[k]@ == selected(
                    workouts@.subrange(0, i as int),
                    now,
                    processed@,
                )[k],
        decreases workouts.len() - i,
    {
        let w = &workouts[i];
        proof {
            assert(workouts@.subrange(0, i + 1).drop_last() =~= workouts@.subrange(0, i as int));
        }
        let created = parse_rfc3339(w.created_at.as_str());
        if is_recent(created, now) && !processed.contains(&w.id) {
            out.push(w.id.clone());
        }
        i += 1;
    }
    assert(workouts@.subrange(0, workouts@.len() as int) =~= workouts@);
    out
}

/// A handled event is never fed through processing again by a
/// reconciliation pass, whatever page that pass fetches and whenever it runs.
pub proof fn lemma_processed_not_selected(
    ws: Seq<WorkoutResponse>,
    now: (i64, u32),
    processed: Set<Seq<char>>,
    id: Seq<char>,
)
    requires
        processed.contains(id),
    ensures
        !selected(ws, now, processed).contains(id),
    decreases ws.len(),
{
    if ws.len() > 0 {
        lemma_processed_not_selected(ws.drop_last(), now, processed, id);
        let rest = selected(ws.drop_last(), now, processed);
        if within_window(rfc3339_instant_of(ws.last().created_at@), now) && !processed.contains(
            ws.last().id@,
        ) {
            assert(rest.push(ws.last().id@).drop_last() =~= rest);
            assert forall|k: int| 0 <= k < rest.len() + 1 implies rest.push(ws.last().id@)[k] != id by {
                if k < rest.len() {
                    assert(rest.push(ws.last().id@)[k] == rest[k]);
                }
            }
        }
    }
}

/// Once an event id is recorded as handled, no later reconciliation pass
/// selects it again.
pub proof fn lemma_marked_not_reselected(
    before: Set<Seq<char>>,
    id: Seq<char>,
    ws: Seq<WorkoutResponse>,
    now: (i64, u32),
)
    ensures
        !selected(ws, now, before.insert(id)).contains(id),
{
    lemma_processed_not_selected(ws, now, before.insert(id), id);
}

} // verus!
