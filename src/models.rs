//! Records exchanged with the tracker: workouts, routines, exercises and
//! sets, and the write-side shapes of a routine update.
use vstd::prelude::*;

verus! {

/// A decimal reading as the tracker sends it (a weight, an RPE, a custom
/// metric). `raw` is its single-precision wire encoding, kept so that the
/// value can be written back unchanged; `tenths` is the same value rounded
/// to tenths, which is what text shows.
#[derive(Clone, Copy, Debug, PartialEq, Eq)]
pub struct Quantity {
    pub raw: u32,
    pub tenths: i64,
}

/// One performed or planned set. `set_type` is one of "warmup", "normal",
/// "failure", "dropset".
#[derive(Clone, Debug)]
pub struct ExerciseSet {
    pub index: u32,
    pub set_type: String,
    pub weight_kg: Option<Quantity>,
    pub reps: Option<u32>,
    pub distance_meters: Option<u32>,
    pub duration_seconds: Option<u32>,
    pub rpe: Option<Quantity>,
    pub custom_metric: Option<Quantity>,
}

#[derive(Clone, Debug)]
pub struct Exercise {
    pub index: u32,
    pub title: String,
    pub notes: Option<String>,
    pub exercise_template_id: String,
    pub superset_id: Option<u32>,
    pub rest_seconds: Option<u32>,
    pub sets: Vec<ExerciseSet>,
}

/// A set as a routine update writes it: the tracker refuses `rpe` there, so
/// the shape has none.
#[derive(Clone, Debug)]
pub struct ExerciseSetForUpdate {
    pub set_type: String,
    pub weight_kg: Option<Quantity>,
    pub reps: Option<u32>,
    pub distance_meters: Option<u32>,
    pub duration_seconds: Option<u32>,
    pub custom_metric: Option<Quantity>,
    pub rep_range: Option<RepRange>,
}

#[derive(Clone, Copy, Debug, PartialEq, Eq)]
pub struct RepRange {
    pub start: Option<u32>,
    pub end: Option<u32>,
}

#[derive(Clone, Debug)]
pub struct ExerciseForUpdate {
    pub exercise_template_id: String,
    pub superset_id: Option<u32>,
    pub rest_seconds: Option<u32>,
    pub notes: Option<String>,
    pub sets: Vec<ExerciseSetForUpdate>,
}

/// The body of a routine update; an absent field is left as it is.
#[derive(Clone, Debug)]
pub struct RoutineUpdate {
    pub title: Option<String>,
    pub notes: Option<String>,
    pub folder_id: Option<String>,
    pub exercises: Option<Vec<ExerciseForUpdate>>,
}

#[derive(Clone, Debug)]
pub struct UpdateRoutineRequest {
    pub routine: RoutineUpdate,
}

/// A completed workout, as fetched; never changed here.
#[derive(Clone, Debug)]
pub struct WorkoutResponse {
    pub id: String,
    pub title: String,
    pub routine_id: String,
    pub description: String,
    pub start_time: String,
    pub end_time: String,
    pub updated_at: String,
    pub created_at: String,
    pub exercises: Vec<Exercise>,
}

/// A routine: the template that an update overwrites.
#[derive(Clone, Debug)]
pub struct RoutineResponse {
    pub id: String,
    pub title: String,
    pub folder_id: Option<String>,
    pub updated_at: String,
    pub created_at: String,
    pub exercises: Vec<Exercise>,
}

#[derive(Clone, Debug)]
pub struct RoutineApiResponse {
    pub routine: RoutineResponse,
}

#[derive(Clone, Debug)]
pub struct RoutineUpdateApiResponse {
    pub routine: Vec<RoutineResponse>,
}

/// One page of workout history, with the total that the history holds.
#[derive(Clone, Debug)]
pub struct WorkoutsListResponse {
    pub workouts: Vec<WorkoutResponse>,
    pub page: i32,
    pub page_size: i32,
    pub total_count: i32,
}

pub fn copy_text(s: &Option<String>) -> (r: Option<String>)
    ensures
        r == *s,
{
    match s {
        Some(t) => Some(t.clone()),
        None => None,
    }
}

/// The update shape of a set: every field but `rpe`, with no rep range.
pub open spec fn set_update_of(s: ExerciseSet) -> ExerciseSetForUpdate {
    ExerciseSetForUpdate {
        set_type: s.set_type,
        weight_kg: s.weight_kg,
        reps: s.reps,
        distance_meters: s.distance_meters,
        duration_seconds: s.duration_seconds,
        custom_metric: s.custom_metric,
        rep_range: None,
    }
}

/// The update shape of an exercise keeps its template, superset, rest and
/// notes, and the update shape of each set, in order.
pub open spec fn exercise_update_matches(e: Exercise, u: ExerciseForUpdate) -> bool {
    &&& u.exercise_template_id == e.exercise_template_id
    &&& u.superset_id == e.superset_id
    &&& u.rest_seconds == e.rest_seconds
    &&& u.notes == e.notes
    &&& u.sets@.len() == e.sets@.len()
    &&& forall|i: int| 0 <= i < e.sets@.len() ==> #[trigger] u.sets@[i] == set_update_of(e.sets@[i])
}

impl ExerciseSet {
    pub fn to_update_format(&self) -> (r: ExerciseSetForUpdate)
        ensures
            r == set_update_of(*self),
    {
        ExerciseSetForUpdate {
            set_type: self.set_type.clone(),
            weight_kg: self.weight_kg,
            reps: self.reps,
            distance_meters: self.distance_meters,
            duration_seconds: self.duration_seconds,
            custom_metric: self.custom_metric,
            rep_range: None,
        }
    }
}

impl Exercise {
    pub fn to_update_format(&self) -> (r: ExerciseForUpdate)
        ensures
            exercise_update_matches(*self, r),
    {
        let mut sets: Vec<ExerciseSetForUpdate> = Vec::new();
        let mut i: usize = 0;
        while i < self.sets.len()
            invariant
                i <= self.sets@.len(),
                sets@.len() == i,
                forall|k: int| 0 <= k < i ==> #[trigger] sets@[k] == set_update_of(self.sets@[k]),
            decreases self.sets.len() - i,
        {
            sets.push(self.sets[i].to_update_format());
            i += 1;
        }
        ExerciseForUpdate {
            exercise_template_id: self.exercise_template_id.clone(),
            superset_id: self.superset_id,
            rest_seconds: self.rest_seconds,
            notes: copy_text(&self.notes),
            sets,
        }
    }
}

} // verus!
