//! Event intake: authentication of pushed events, the set of events already
//! handled, the steps of handling one event, the routine update it writes,
//! and the choice of events that a reconciliation pass re-feeds.
use vstd::prelude::*;
use crate::config::Config;
use crate::models::{exercise_update_matches, ExerciseForUpdate, RoutineResponse, RoutineUpdate, WorkoutResponse};
use crate::overload::{ProcessingError, ProgressiveOverloadResponse};
use crate::suggestions::ExerciseSuggestions;
use crate::text::chars_of;

verus! {

/// The body of a pushed completion event.
#[derive(Clone, Debug)]
pub struct WebhookPayload {
    pub payload: WorkoutIdPayload,
}

#[derive(Clone, Debug)]
pub struct WorkoutIdPayload {
    pub workout_id: String,
}

pub open spec fn bearer_prefix() -> Seq<char> {
    seq!['B', 'e', 'a', 'r', 'e', 'r', ' ']
}

/// The `Authorization` header that admits an event: "Bearer " then the
/// configured token, exactly.
pub open spec fn authorized(header: Option<&str>, token: Seq<char>) -> bool {
    match header {
        Some(h) => h@ == bearer_prefix() + token,
        None => false,
    }
}

/// Checks the `Authorization` header of a pushed event (`None` where it is
/// missing or not text) against the configured token.
pub fn authenticate_request(authorization: Option<&str>, config: &Config) -> (r: Result<(), ProcessingError>)
    ensures
        r is Ok <==> authorized(authorization, config.webhook_token@),
        r is Err ==> r == Err::<(), ProcessingError>(ProcessingError::AuthError),
{
    let header = match authorization {
        Some(h) => h,
        None => return Err(ProcessingError::AuthError),
    };
    let h = chars_of(header);
    let t = chars_of(config.webhook_token.as_str());
    let prefix = vec!['B', 'e', 'a', 'r', 'e', 'r', ' '];
    assert(prefix@ =~= bearer_prefix());
    if h.len() < 7 || h.len() - 7 != t.len() {
        assert(h@.len() != (bearer_prefix() + t@).len());
        return Err(ProcessingError::AuthError);
    }
    let mut i: usize = 0;
    while i < h.len()
        invariant
            h.len() == t.len() + 7,
            h@ == header@,
            authorization == Some(header),
            t@ == config.webhook_token@,
            prefix@ == bearer_prefix(),
            i <= h@.len(),
            forall|k: int| 0 <= k < i ==> h@[k] == (bearer_prefix() + t@)[k],
        decreases h.len() - i,
    {
        let expected = if i < 7 {
            prefix[i]
        } else {
            t[i - 7]
        };
        if h[i] != expected {
            assert(h@[i as int] != (bearer_prefix() + t@)[i as int]);
            assert(header@ != bearer_prefix() + config.webhook_token@);
            return Err(ProcessingError::AuthError);
        }
        i += 1;
    }
    assert(h@ =~= bearer_prefix() + t@);
    Ok(())
}

/// The ids of the events already handled in this process, each once.
#[derive(Clone, Debug)]
pub struct ProcessedWorkouts {
    ids: Vec<String>,
}

impl View for ProcessedWorkouts {
    type V = Set<Seq<char>>;

    closed spec fn view(&self) -> Set<Seq<char>> {
        Set::new(|k: Seq<char>| exists|i: int| 0 <= i < self.ids@.len() && (#[trigger] self.ids@[i])@ == k)
    }
}

impl ProcessedWorkouts {
    pub fn new() -> (r: ProcessedWorkouts)
        ensures
            r@ == Set::<Seq<char>>::empty(),
    {
        let r = ProcessedWorkouts { ids: Vec::new() };
        assert(r@ =~= Set::<Seq<char>>::empty());
        r
    }

    /// Whether the event `id` was handled.
    pub fn contains(&self, id: &String) -> (r: bool)
        ensures
            r == self@.contains(id@),
    {
        let mut i: usize = 0;
        while i < self.ids.len()
            invariant
                i <= self.ids@.len(),
                forall|k: int| 0 <= k < i ==> (#[trigger] self.ids@[k])@ != id@,
            decreases self.ids.len() - i,
        {
            if self.ids[i] == *id {
                assert(self@.contains(id@));
                return true;
            }
            i += 1;
        }
        false
    }

    /// Records the event `id` as handled; returns whether it was new.
    pub fn mark_processed(&mut self, id: String) -> (r: bool)
        ensures
            final(self)@ == old(self)@.insert(id@),
            r == !old(self)@.contains(id@),
    {
        if self.contains(&id) {
            assert(final(self)@ =~= old(self)@.insert(id@));
            return false;
        }
        let ghost before = self.ids@;
        self.ids.push(id);
        proof {
            assert forall|k: Seq<char>| #[trigger] old(self)@.insert(id@).contains(k) implies final(self)@.contains(k) by {
                if k == id@ {
                    assert(self.ids@[before.len() as int]@ == k);
                } else {
                    let i = choose|i: int| 0 <= i < before.len() && (#[trigger] before[i])@ == k;
                    assert(self.ids@[i] == before[i]);
                }
            }
            assert forall|k: Seq<char>| #[trigger] final(self)@.contains(k) implies old(self)@.insert(id@).contains(k) by {
                let i = choose|i: int| 0 <= i < self.ids@.len() && (#[trigger] self.ids@[i])@ == k;
                if i < before.len() {
                    assert(before[i] == self.ids@[i]);
                }
            }
            assert(final(self)@ =~= old(self)@.insert(id@));
        }
        true
    }
}

/// A workout with no routine ("" or "null") needs no update.
pub open spec fn has_routine(routine_id: Seq<char>) -> bool {
    routine_id.len() != 0 && routine_id != seq!['n', 'u', 'l', 'l']
}

pub fn workout_has_routine(workout: &WorkoutResponse) -> (r: bool)
    ensures
        r == has_routine(workout.routine_id@),
{
    let s = chars_of(workout.routine_id.as_str());
    if s.len() == 0 {
        return false;
    }
    if s.len() == 4 && s[0] == 'n' && s[1] == 'u' && s[2] == 'l' && s[3] == 'l' {
        assert(s@ =~= seq!['n', 'u', 'l', 'l']);
        return false;
    }
    proof {
        if s@.len() == 4 && s@ == seq!['n', 'u', 'l', 'l'] {
            assert(s@[0] == 'n' && s@[1] == 'u' && s@[2] == 'l' && s@[3] == 'l');
        }
    }
    true
}

/// Where the handling of one event stands.
#[derive(Clone, Copy, Debug, PartialEq, Eq)]
pub enum EventStage {
    FetchingWorkout,
    FetchingRoutine,
    Generating,
    WritingBack,
    /// Handling is over; `processed` says whether the event id is to be
    /// recorded as handled.
    Finished { processed: bool },
}

/// The stage after `stage`, given whether its work succeeded and, after
/// the workout fetch, whether the workout belongs to a routine. A failure
/// before the write-back ends without recording, so that a later pass
/// retries; a workout without routine, or a finished write-back (even a
/// refused one), is recorded.
pub open spec fn next_stage(stage: EventStage, succeeded: bool, routine: bool) -> EventStage {
    match stage {
        EventStage::FetchingWorkout => if !succeeded {
            EventStage::Finished { processed: false }
        } else if !routine {
            EventStage::Finished { processed: true }
        } else {
            EventStage::FetchingRoutine
        },
        EventStage::FetchingRoutine => if succeeded {
            EventStage::Generating
        } else {
            EventStage::Finished { processed: false }
        },
        EventStage::Generating => if succeeded {
            EventStage::WritingBack
        } else {
            EventStage::Finished { processed: false }
        },
        EventStage::WritingBack => EventStage::Finished { processed: true },
        EventStage::Finished { processed } => EventStage::Finished { processed },
    }
}

pub fn advance_event(stage: EventStage, succeeded: bool, routine: bool) -> (r: EventStage)
    ensures
        r == next_stage(stage, succeeded, routine),
{
    match stage {
        EventStage::FetchingWorkout => if !succeeded {
            EventStage::Finished { processed: false }
        } else if !routine {
            EventStage::Finished { processed: true }
        } else {
            EventStage::FetchingRoutine
        },
        EventStage::FetchingRoutine => if succeeded {
            EventStage::Generating
        } else {
            EventStage::Finished { processed: false }
        },
        EventStage::Generating => if succeeded {
            EventStage::WritingBack
        } else {
            EventStage::Finished { processed: false }
        },
        EventStage::WritingBack => EventStage::Finished { processed: true },
        EventStage::Finished { processed } => EventStage::Finished { processed },
    }
}

/// An event is recorded as handled only when its handling reached an end
/// state: the write-back was attempted, or the workout has no routine.
/// A failure at any earlier step leaves it unrecorded.
pub proof fn lemma_recorded_only_at_end(stage: EventStage, succeeded: bool, routine: bool)
    requires
        !(stage is Finished),
    ensures
        next_stage(stage, succeeded, routine) == (EventStage::Finished { processed: true }) <==> (
        stage == EventStage::WritingBack || (stage == EventStage::FetchingWorkout && succeeded
            && !routine)),
        !succeeded && stage != EventStage::WritingBack ==> next_stage(stage, succeeded, routine)
            == (EventStage::Finished { processed: false }),
{
}

/// The update shape of routine exercise `e`, with its notes replaced by the
/// suggestion for its template where there is one.
pub open spec fn updated_exercise_matches(
    e: crate::models::Exercise,
    u: ExerciseForUpdate,
    suggestions: Map<Seq<char>, Seq<char>>,
) -> bool {
    &&& u.exercise_template_id == e.exercise_template_id
    &&& u.superset_id == e.superset_id
    &&& u.rest_seconds == e.rest_seconds
    &&& u.sets@.len() == e.sets@.len()
    &&& forall|i: int|
        0 <= i < e.sets@.len() ==> #[trigger] u.sets@[i] == crate::models::set_update_of(e.sets@[i])
    &&& if suggestions.contains_key(e.exercise_template_id@) {
        u.notes matches Some(n) && n@ == suggestions[e.exercise_template_id@]
    } else {
        u.notes == e.notes
    }
}

/// The routine update written back after a reply: the reply's title, and
/// the routine's own exercises in order, each with the suggestion for its
/// template as notes where there is one; routine notes and folder are left
/// as they are.
pub fn build_routine_update(
    routine: &RoutineResponse,
    response: &ProgressiveOverloadResponse,
    suggestions: &ExerciseSuggestions,
) -> (r: RoutineUpdate)
    requires
        suggestions.well_formed(),
    ensures
        r.title matches Some(t) && t@ == response.routine_title@,
        r.notes is None,
        r.folder_id is None,
        r.exercises matches Some(es) && es@.len() == routine.exercises@.len() && forall|i: int|
            0 <= i < es@.len() ==> updated_exercise_matches(
                routine.exercises@[i],
                #[trigger] es@[i],
                suggestions@,
            ),
{
    let mut exercises: Vec<ExerciseForUpdate> = Vec::new();
    let mut i: usize = 0;
    while i < routine.exercises.len()
        invariant
            i <= routine.exercises@.len(),
            exercises@.len() == i,
            suggestions.well_formed(),
            forall|k: int|
                0 <= k < i ==> updated_exercise_matches(
                    routine.exercises@[k],
                    #[trigger] exercises@[k],
                    suggestions@,
                ),
        decreases routine.exercises.len() - i,
    {
        let e = &routine.exercises[i];
        let mut u = e.to_update_format();
        assert(exercise_update_matches(*e, u));
        match suggestions.get(&e.exercise_template_id) {
            Some(note) => {
                u.notes = Some(note.clone());
            },
            None => {},
        }
        exercises.push(u);
        i += 1;
    }
    RoutineUpdate {
        title: Some(response.routine_title.clone()),
        notes: None,
        folder_id: None,
        exercises: Some(exercises),
    }
}

} // verus!
