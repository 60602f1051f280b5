//! The progressive-overload transaction: request in, validated reply out.
use vstd::prelude::*;
use crate::deload::{context_spec, DeloadCalculator, DeloadContextBuilder, ReferenceSearch, SearchStep};
use crate::models::{Exercise, RoutineResponse, WorkoutResponse};
use crate::prompt::prompt_text;
use crate::reply::{
    extracted_json, json_accepts, json_array_len_of, json_u64_of, reply_title_of, week_number_of,
    ReplyDocument,
};
use crate::suggestions::{suggestions_of, ExerciseSuggestions};
use crate::title::{day_of, next_title, token_number, week_keyword, week_of};

verus! {

/// Why processing an event stopped short.
#[derive(Clone, Copy, Debug, PartialEq, Eq)]
pub enum ProcessingError {
    /// Missing or wrong bearer token on an inbound event.
    AuthError,
    /// The tracker answered a fetch with an error, or could not be reached.
    UpstreamFetchError,
    /// The language model could not be asked.
    GenerationError,
    /// The model's reply does not follow the schema.
    MalformedResponse,
    /// The tracker refused the routine update.
    WriteBackError,
}

/// The session just completed and the routine it belongs to.
#[derive(Clone, Debug)]
pub struct ProgressiveOverloadRequest {
    pub current_workout: WorkoutResponse,
    pub routine: RoutineResponse,
}

/// The model's validated reply.
#[derive(Clone, Debug)]
pub struct ProgressiveOverloadResponse {
    pub updated_exercises: Vec<Exercise>,
    pub week_number: u32,
    pub routine_title: String,
}

/// The prompt for a request: the session's week and the next routine
/// title come from the session title; the cycle context from the week and
/// the reference that the history search found.
pub open spec fn overload_prompt(
    percent: u32,
    workout: WorkoutResponse,
    routine: RoutineResponse,
    reference: Option<WorkoutResponse>,
) -> Seq<char> {
    let week = week_of(workout.title@);
    let c = context_spec(percent, week, reference);
    prompt_text(workout, routine, c.0, c.1, c.2, week, next_title(workout.title@))
}

/// The steps of one progressive-overload transaction. The caller runs the
/// history search that `start_reference_search` begins, asks the model with
/// the prompt of `build_progressive_overload_prompt`, and decodes the reply
/// with `parse_gemini_response`.
#[derive(Clone, Copy, Debug)]
pub struct ProgressiveOverloadService {
    pub deload_calculator: DeloadCalculator,
}

impl ProgressiveOverloadService {
    pub fn new() -> (r: ProgressiveOverloadService)
        ensures
            r.deload_calculator.deload_intensity_percent == 60,
    {
        ProgressiveOverloadService { deload_calculator: DeloadCalculator::new() }
    }

    pub fn extract_week_number(&self, title: &str) -> (r: u32)
        ensures
            r == week_of(title@),
    {
        crate::title::extract_week_and_day(title).0
    }

    pub fn extract_week_and_day(&self, title: &str) -> (r: (u32, u32))
        ensures
            r == (week_of(title@), day_of(title@)),
    {
        crate::title::extract_week_and_day(title)
    }

    pub fn determine_routine_title_format(&self, title: &str) -> (r: String)
        ensures
            r@ == next_title(title@),
    {
        crate::title::determine_routine_title_format(title)
    }

    pub fn extract_week_from_title(&self, title: &str) -> (r: Option<u32>)
        ensures
            r == token_number(title@, week_keyword()),
    {
        crate::title::extract_week_from_title(title)
    }

    pub fn build_exercise_suggestions(&self, response: &ProgressiveOverloadResponse) -> (r: ExerciseSuggestions)
        ensures
            r.well_formed(),
            r@ == suggestions_of(response.updated_exercises@),
    {
        crate::suggestions::build_exercise_suggestions(response)
    }

    /// The history search for the request's deload reference; it asks for
    /// nothing unless the session is in week 8 or later.
    pub fn start_reference_search(&self, request: &ProgressiveOverloadRequest) -> (r: (ReferenceSearch, SearchStep))
        ensures
            r.0.well_formed(),
            r.0.routine_id@ == request.current_workout.routine_id@,
            week_of(request.current_workout.title@) < 8 ==> r.1 == SearchStep::NotFound,
            week_of(request.current_workout.title@) >= 8 ==> r.1 == (SearchStep::Fetch {
                page: 0,
                page_size: crate::deload::PAGE_SIZE,
            }),
    {
        let week = crate::title::extract_week_and_day(request.current_workout.title.as_str()).0;
        ReferenceSearch::start(week, &request.current_workout)
    }

    /// The prompt for the request, given the reference that the history
    /// search found.
    pub fn build_progressive_overload_prompt(
        &self,
        request: &ProgressiveOverloadRequest,
        reference: Option<&WorkoutResponse>,
    ) -> (r: String)
        ensures
            r@ == overload_prompt(
                self.deload_calculator.deload_intensity_percent,
                request.current_workout,
                request.routine,
                match reference {
                    Some(w) => Some(*w),
                    None => None,
                },
            ),
    {
        let workout = &request.current_workout;
        let week = crate::title::extract_week_and_day(workout.title.as_str()).0;
        let routine_title = crate::title::determine_routine_title_format(workout.title.as_str());
        let builder = DeloadContextBuilder::new(self.deload_calculator);
        let context = builder.create_deload_transition_context(week, reference);
        crate::prompt::build_progressive_overload_prompt(
            workout,
            &request.routine,
            &context,
            week,
            routine_title.as_str(),
        )
    }

    /// Decodes the model's reply; see `reply::parse_gemini_response`.
    pub fn parse_gemini_response(&self, reply: &str) -> (r: Result<ReplyDocument, ProcessingError>)
        ensures
            r is Err <==> !json_accepts(extracted_json(reply@)) || json_array_len_of(
                extracted_json(reply@),
                "updated_exercises"@,
            ) is None,
            r is Err ==> r == Err::<ReplyDocument, ProcessingError>(
                ProcessingError::MalformedResponse,
            ),
            r matches Ok(d) ==> {
                let t = extracted_json(reply@);
                &&& json_array_len_of(t, "updated_exercises"@) == Some(d.updated_exercises@.len())
                &&& d.week_number == week_number_of(json_u64_of(t, "week_number"@))
                &&& d.routine_title@ == reply_title_of(t)
            },
    {
        crate::reply::parse_gemini_response(reply)
    }
}

} // verus!
