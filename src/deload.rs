//! Cycle-boundary context: at the end of an eight-week block the next
//! session is a deload, planned against a reference workout from history.
//! The history search is a state machine: the caller fetches the page it
//! asks for and hands the page (or the failure) back.
use vstd::prelude::*;
use crate::models::{WorkoutResponse, WorkoutsListResponse};
use crate::prompt::{format_workout_for_prompt, workout_text};
use crate::text::{decimal, push_decimal};
use crate::title::{day_keyword, extract_day_number, extract_week_from_title, next_week_index, next_week_of, token_number, week_keyword};

verus! {

/// Pages of history searched, at most, for each kind of reference.
pub const MAX_PAGES: i32 = 10;

/// Workouts asked for on each page of history.
pub const PAGE_SIZE: i32 = 10;

pub const INSTRUCTION_OPENING: &'static str = " CYCLE TRANSITION: You are transitioning from Week 8 (deload) to Week 1 of a NEW 8-week block. This should be a DELOAD week with ";

pub const INSTRUCTION_WITH_REFERENCE: &'static str = "% intensity and reduced volume based on the reference workout provided (either Week 1 from previous cycle or Week 7 max effort as baseline). Apply the deload percentage to the reference weights. Focus on form, recovery, and conservative loading.";

pub const INSTRUCTION_WITHOUT_REFERENCE: &'static str = "% intensity reduction from current weights and reduced volume. Focus on form, recovery, and conservative loading to prepare for the new training cycle.";

pub const WEEK_ONE_LABEL: &'static str = "WEEK 1 REFERENCE WORKOUT";

pub const WEEK_SEVEN_LABEL: &'static str = "WEEK 7 REFERENCE WORKOUT (max effort baseline)";

/// Deload intensity, in percent of the reference weights.
#[derive(Clone, Copy, Debug, PartialEq, Eq)]
pub struct DeloadCalculator {
    pub deload_intensity_percent: u32,
}

/// What the prompt is told about the cycle position.
#[derive(Clone, Debug)]
pub struct DeloadContext {
    pub next_week_index: u32,
    pub cycle_instruction: String,
    pub reference_data: String,
}

/// The deload instruction, with or without a reference workout to scale.
pub open spec fn instruction_text(percent: u32, has_reference: bool) -> Seq<char> {
    INSTRUCTION_OPENING@ + decimal(percent as nat) + if has_reference {
        INSTRUCTION_WITH_REFERENCE@
    } else {
        INSTRUCTION_WITHOUT_REFERENCE@
    }
}

/// How a reference workout is introduced: a week-1 title names the workout
/// of the previous cycle, any other the week-7 baseline.
pub open spec fn reference_label(w: WorkoutResponse) -> Seq<char> {
    if token_number(w.title@, week_keyword()) == Some(1u32) {
        WEEK_ONE_LABEL@
    } else {
        WEEK_SEVEN_LABEL@
    }
}

/// The context for a session in week `week`, as (next week, cycle
/// instruction, reference text), given the reference that the history
/// search found: before week 8 there is no transition and the reference is
/// not consulted; from week 8 on the next week is 1 and the instruction asks
/// for a deload, scaled from the reference where there is one.
pub open spec fn context_spec(percent: u32, week: u32, reference: Option<WorkoutResponse>) -> (
    u32,
    Seq<char>,
    Seq<char>,
) {
    if week < 8 {
        (next_week_of(week), Seq::empty(), Seq::empty())
    } else {
        match reference {
            Some(w) => (
                next_week_of(week),
                "\n\n"@ + instruction_text(percent, true),
                "\n\n"@ + reference_label(w) + " (for deload calculation):\n"@ + workout_text(w),
            ),
            None => (next_week_of(week), "\n\n"@ + instruction_text(percent, false), Seq::empty()),
        }
    }
}

pub open spec fn context_matches(
    c: DeloadContext,
    percent: u32,
    week: u32,
    reference: Option<WorkoutResponse>,
) -> bool {
    (c.next_week_index, c.cycle_instruction@, c.reference_data@) == context_spec(
        percent,
        week,
        reference,
    )
}

/// Before week 8 the context carries no instruction and no reference,
/// whatever the history holds.
pub proof fn lemma_no_transition_before_week_eight(
    percent: u32,
    week: u32,
    reference: Option<WorkoutResponse>,
)
    requires
        week < 8,
    ensures
        context_spec(percent, week, reference) == (
            (week + 1) as u32,
            Seq::<char>::empty(),
            Seq::<char>::empty(),
        ),
        context_spec(percent, week, reference) == context_spec(percent, week, None),
{
}

impl DeloadCalculator {
    /// A deload at 60% intensity.
    pub fn new() -> (r: DeloadCalculator)
        ensures
            r.deload_intensity_percent == 60,
    {
        DeloadCalculator { deload_intensity_percent: 60 }
    }

    pub fn generate_deload_instruction(&self, has_reference: bool) -> (r: String)
        ensures
            r@ == instruction_text(self.deload_intensity_percent, has_reference),
    {
        let mut out = String::from_str(INSTRUCTION_OPENING);
        push_decimal(&mut out, self.deload_intensity_percent as u64);
        if has_reference {
            out.append(INSTRUCTION_WITH_REFERENCE);
        } else {
            out.append(INSTRUCTION_WITHOUT_REFERENCE);
        }
        assert(out@ =~= instruction_text(self.deload_intensity_percent, has_reference));
        out
    }

    /// The number of the title's `day <N>` token, if it has one that fits.
    pub fn extract_day_from_title(&self, title: &str) -> (r: Option<u32>)
        ensures
            r == token_number(title@, day_keyword()),
    {
        extract_day_number(title)
    }
}

impl Default for DeloadCalculator {
    fn default() -> (r: DeloadCalculator)
        ensures
            r.deload_intensity_percent == 60,
    {
        DeloadCalculator::new()
    }
}

/// Which reference the history search is after.
#[derive(Clone, Copy, Debug, PartialEq, Eq)]
pub enum SearchPhase {
    /// A week-1 workout on the given day of the split.
    SameDayWeekOne { day: u32 },
    /// A week-7 workout of the same routine.
    SameRoutineWeekSeven,
}

/// What the history search asks of its caller next.
#[derive(Clone, Copy, Debug, PartialEq, Eq)]
pub enum SearchStep {
    /// Fetch this page of history and hand it to `on_page`, or report the
    /// failure to `on_fetch_error`.
    Fetch { page: i32, page_size: i32 },
    /// The workout at this index of the page just handed over is the
    /// reference.
    Found { index: usize },
    /// No reference exists in the pages searched.
    NotFound,
}

/// The history search for a deload reference: first a week-1 workout on the
/// same day, then a week-7 workout of the same routine; each over at most
/// `MAX_PAGES` pages, stopping early where the history runs out.
#[derive(Clone, Debug)]
pub struct ReferenceSearch {
    pub phase: SearchPhase,
    pub page: i32,
    pub routine_id: String,
}

/// `w` is the reference that `phase` is after.
pub open spec fn wanted(phase: SearchPhase, routine_id: Seq<char>, w: WorkoutResponse) -> bool {
    match phase {
        SearchPhase::SameDayWeekOne { day } => {
            &&& token_number(w.title@, week_keyword()) == Some(1u32)
            &&& token_number(w.title@, day_keyword()) == Some(day)
        },
        SearchPhase::SameRoutineWeekSeven => {
            &&& token_number(w.title@, week_keyword()) == Some(7u32)
            &&& w.routine_id@ == routine_id
        },
    }
}

/// The first workout of `ws` that `phase` wants.
pub open spec fn first_wanted(phase: SearchPhase, routine_id: Seq<char>, ws: Seq<WorkoutResponse>) -> Option<
    WorkoutResponse,
>
    decreases ws.len(),
{
    if ws.len() == 0 {
        None
    } else if wanted(phase, routine_id, ws[0]) {
        Some(ws[0])
    } else {
        first_wanted(phase, routine_id, ws.drop_first())
    }
}

proof fn lemma_first_wanted_at(phase: SearchPhase, routine_id: Seq<char>, ws: Seq<WorkoutResponse>, i: int)
    requires
        0 <= i <= ws.len(),
        forall|j: int| 0 <= j < i ==> !wanted(phase, routine_id, #[trigger] ws[j]),
    ensures
        i < ws.len() && wanted(phase, routine_id, ws[i]) ==> first_wanted(phase, routine_id, ws)
            == Some(ws[i]),
        i == ws.len() ==> first_wanted(phase, routine_id, ws) is None,
    decreases i,
{
    if i > 0 {
        let d = ws.drop_first();
        assert forall|j: int| 0 <= j < i - 1 implies !wanted(phase, routine_id, #[trigger] d[j]) by {
            assert(d[j] == ws[j + 1]);
        }
        lemma_first_wanted_at(phase, routine_id, d, i - 1);
        assert(!wanted(phase, routine_id, ws[0]));
        if i < ws.len() {
            assert(d[i - 1] == ws[i]);
        }
    }
}

/// The search once the current phase has nothing more to look at.
pub open spec fn phase_ended(s: ReferenceSearch) -> (ReferenceSearch, SearchStep) {
    match s.phase {
        SearchPhase::SameDayWeekOne { .. } => (
            ReferenceSearch { phase: SearchPhase::SameRoutineWeekSeven, page: 0, ..s },
            SearchStep::Fetch { page: 0, page_size: PAGE_SIZE },
        ),
        SearchPhase::SameRoutineWeekSeven => (s, SearchStep::NotFound),
    }
}

/// The search moved on to the next page, within the cap.
pub open spec fn advanced(s: ReferenceSearch) -> (ReferenceSearch, SearchStep) {
    if s.page + 1 < MAX_PAGES {
        (
            ReferenceSearch { page: (s.page + 1) as i32, ..s },
            SearchStep::Fetch { page: (s.page + 1) as i32, page_size: PAGE_SIZE },
        )
    } else {
        phase_ended(s)
    }
}

/// Pages that the search may still ask for.
pub open spec fn fetches_left(s: ReferenceSearch) -> int {
    match s.phase {
        SearchPhase::SameDayWeekOne { .. } => 2 * MAX_PAGES - s.page,
        SearchPhase::SameRoutineWeekSeven => MAX_PAGES - s.page,
    }
}

impl ReferenceSearch {
    pub open spec fn well_formed(&self) -> bool {
        0 <= self.page < MAX_PAGES
    }

    /// The search for a session in week `current_week_index`: none before
    /// week 8; from week 8 on, the first page of the same-day week-1 search
    /// where the title has a day, else of the week-7 search.
    pub fn start(current_week_index: u32, workout: &WorkoutResponse) -> (r: (ReferenceSearch, SearchStep))
        ensures
            r.0.well_formed(),
            r.0.page == 0,
            r.0.routine_id@ == workout.routine_id@,
            current_week_index < 8 ==> r.1 == SearchStep::NotFound,
            current_week_index >= 8 ==> r.1 == (SearchStep::Fetch { page: 0, page_size: PAGE_SIZE }),
            r.0.phase == match token_number(workout.title@, day_keyword()) {
                Some(day) => SearchPhase::SameDayWeekOne { day },
                None => SearchPhase::SameRoutineWeekSeven,
            },
    {
        let phase = match extract_day_number(workout.title.as_str()) {
            Some(day) => SearchPhase::SameDayWeekOne { day },
            None => SearchPhase::SameRoutineWeekSeven,
        };
        let search = ReferenceSearch { phase, page: 0, routine_id: workout.routine_id.clone() };
        if current_week_index < 8 {
            (search, SearchStep::NotFound)
        } else {
            (search, SearchStep::Fetch { page: 0, page_size: PAGE_SIZE })
        }
    }

    fn is_wanted(&self, w: &WorkoutResponse) -> (r: bool)
        ensures
            r == wanted(self.phase, self.routine_id@, *w),
    {
        let week = extract_week_from_title(w.title.as_str());
        match self.phase {
            SearchPhase::SameDayWeekOne { day } => {
                let d = extract_day_number(w.title.as_str());
                week == Some(1u32) && d == Some(day)
            },
            SearchPhase::SameRoutineWeekSeven => week == Some(7u32) && w.routine_id == self.routine_id,
        }
    }

    fn end_phase(&mut self) -> (r: SearchStep)
        requires
            old(self).well_formed(),
        ensures
            (*final(self), r) == phase_ended(*old(self)),
            final(self).well_formed(),
    {
        match self.phase {
            SearchPhase::SameDayWeekOne { .. } => {
                self.phase = SearchPhase::SameRoutineWeekSeven;
                self.page = 0;
                SearchStep::Fetch { page: 0, page_size: PAGE_SIZE }
            },
            SearchPhase::SameRoutineWeekSeven => SearchStep::NotFound,
        }
    }

    fn advance(&mut self) -> (r: SearchStep)
        requires
            old(self).well_formed(),
        ensures
            (*final(self), r) == advanced(*old(self)),
            final(self).well_formed(),
    {
        if self.page + 1 < MAX_PAGES {
            self.page = self.page + 1;
            SearchStep::Fetch { page: self.page, page_size: PAGE_SIZE }
        } else {
            self.end_phase()
        }
    }

    /// The page asked for could not be fetched: move on to the next one.
    pub fn on_fetch_error(&mut self) -> (r: SearchStep)
        requires
            old(self).well_formed(),
        ensures
            (*final(self), r) == advanced(*old(self)),
            final(self).well_formed(),
            r is Fetch ==> fetches_left(*final(self)) < fetches_left(*old(self)),
    {
        self.advance()
    }

    /// The page asked for: the first wanted workout on it is the reference;
    /// with none, the search goes on to the next page, or ends the phase
    /// where this page reaches the total that the history reports.
    pub fn on_page(&mut self, page: &WorkoutsListResponse) -> (r: SearchStep)
        requires
            old(self).well_formed(),
        ensures
            final(self).well_formed(),
            r is Fetch ==> fetches_left(*final(self)) < fetches_left(*old(self)),
            match r {
                SearchStep::Found { index } => {
                    &&& *final(self) == *old(self)
                    &&& index < page.workouts@.len()
                    &&& wanted(old(self).phase, old(self).routine_id@, page.workouts@[index as int])
                    &&& first_wanted(old(self).phase, old(self).routine_id@, page.workouts@) == Some(
                        page.workouts@[index as int],
                    )
                    &&& forall|j: int|
                        0 <= j < index ==> !wanted(
                            old(self).phase,
                            old(self).routine_id@,
                            #[trigger] page.workouts@[j],
                        )
                },
                _ => {
                    &&& forall|j: int|
                        0 <= j < page.workouts@.len() ==> !wanted(
                            old(self).phase,
                            old(self).routine_id@,
                            #[trigger] page.workouts@[j],
                        )
                    &&& first_wanted(old(self).phase, old(self).routine_id@, page.workouts@) is None
                    &&& (*final(self), r) == if (old(self).page + 1) * PAGE_SIZE >= page.total_count {
                        phase_ended(*old(self))
                    } else {
                        advanced(*old(self))
                    }
                },
            },
    {
        let mut i: usize = 0;
        while i < page.workouts.len()
            invariant
                i <= page.workouts@.len(),
                *self == *old(self),
                self.well_formed(),
                forall|j: int|
                    0 <= j < i ==> !wanted(self.phase, self.routine_id@, #[trigger] page.workouts@[j]),
            decreases page.workouts.len() - i,
        {
            if self.is_wanted(&page.workouts[i]) {
                proof {
                    lemma_first_wanted_at(self.phase, self.routine_id@, page.workouts@, i as int);
                }
                return SearchStep::Found { index: i };
            }
            i += 1;
        }
        proof {
            lemma_first_wanted_at(self.phase, self.routine_id@, page.workouts@, i as int);
        }
        if (self.page + 1) * PAGE_SIZE >= page.total_count {
            self.end_phase()
        } else {
            self.advance()
        }
    }
}

/// Page `k` of a fixed history, as a fetch returns it (`None`: the fetch
/// fails).
pub open spec fn fetched(history: Seq<Option<WorkoutsListResponse>>, k: int) -> Option<
    WorkoutsListResponse,
> {
    if 0 <= k < history.len() {
        history[k]
    } else {
        None
    }
}

/// The reference that a search in state `s` ends with over a fixed history,
/// each step as `on_page` and `on_fetch_error` take it.
pub open spec fn outcome(s: ReferenceSearch, history: Seq<Option<WorkoutsListResponse>>) -> Option<
    WorkoutResponse,
>
    decreases fetches_left(s),
{
    if !s.well_formed() {
        None
    } else {
        let found = match fetched(history, s.page as int) {
            Some(p) => first_wanted(s.phase, s.routine_id@, p.workouts@),
            None => None,
        };
        let (t, step) = match fetched(history, s.page as int) {
            Some(p) => if (s.page + 1) * PAGE_SIZE >= p.total_count {
                phase_ended(s)
            } else {
                advanced(s)
            },
            None => advanced(s),
        };
        if found is Some {
            found
        } else if step is Fetch && t.well_formed() && fetches_left(t) < fetches_left(s) {
            outcome(t, history)
        } else {
            None
        }
    }
}

/// The workouts that one phase of the search looks at, from the page of
/// `s` on: the pages fetched in order, up to the one that reaches the total
/// the history reports, within the page cap.
pub open spec fn scanned(s: ReferenceSearch, history: Seq<Option<WorkoutsListResponse>>) -> Seq<
    WorkoutResponse,
>
    decreases MAX_PAGES - s.page,
{
    if !(0 <= s.page < MAX_PAGES) {
        Seq::empty()
    } else {
        let rest = scanned(ReferenceSearch { page: (s.page + 1) as i32, ..s }, history);
        match fetched(history, s.page as int) {
            Some(p) => if (s.page + 1) * PAGE_SIZE >= p.total_count {
                p.workouts@
            } else {
                p.workouts@ + rest
            },
            None => rest,
        }
    }
}

proof fn lemma_first_wanted_concat(
    phase: SearchPhase,
    routine_id: Seq<char>,
    a: Seq<WorkoutResponse>,
    b: Seq<WorkoutResponse>,
)
    ensures
        first_wanted(phase, routine_id, a + b) == match first_wanted(phase, routine_id, a) {
            Some(w) => Some(w),
            None => first_wanted(phase, routine_id, b),
        },
    decreases a.len(),
{
    if a.len() == 0 {
        assert(a + b =~= b);
    } else {
        assert((a + b)[0] == a[0]);
        assert((a + b).drop_first() =~= a.drop_first() + b);
        lemma_first_wanted_concat(phase, routine_id, a.drop_first(), b);
    }
}

proof fn lemma_scanned_phase_free(s: ReferenceSearch, t: ReferenceSearch, history: Seq<Option<WorkoutsListResponse>>)
    requires
        s.page == t.page,
    ensures
        scanned(s, history) == scanned(t, history),
    decreases MAX_PAGES - s.page,
{
    if 0 <= s.page < MAX_PAGES {
        lemma_scanned_phase_free(
            ReferenceSearch { page: (s.page + 1) as i32, ..s },
            ReferenceSearch { page: (t.page + 1) as i32, ..t },
            history,
        );
    }
}

/// What a search ends with over a fixed history: the first workout that its
/// phase wants among the pages that phase looks at; failing that, in the
/// same-day phase, the first week-7 workout of the routine among the pages
/// that the second phase looks at; failing both, none.
pub open spec fn search_result(s: ReferenceSearch, history: Seq<Option<WorkoutsListResponse>>) -> Option<
    WorkoutResponse,
> {
    match first_wanted(s.phase, s.routine_id@, scanned(s, history)) {
        Some(w) => Some(w),
        None => match s.phase {
            SearchPhase::SameDayWeekOne { .. } => first_wanted(
                SearchPhase::SameRoutineWeekSeven,
                s.routine_id@,
                scanned(ReferenceSearch { phase: SearchPhase::SameRoutineWeekSeven, page: 0, ..s }, history),
            ),
            SearchPhase::SameRoutineWeekSeven => None,
        },
    }
}

/// The search finds a same-day week-1 workout where the pages it looks at
/// hold one; else a week-7 workout of the same routine where those pages
/// hold one; else nothing. Failed fetches only skip their page.
pub proof fn lemma_search_outcome(s: ReferenceSearch, history: Seq<Option<WorkoutsListResponse>>)
    requires
        s.well_formed(),
    ensures
        outcome(s, history) == search_result(s, history),
    decreases fetches_left(s),
{
    let s0 = ReferenceSearch { phase: SearchPhase::SameRoutineWeekSeven, page: 0, ..s };
    let nx = ReferenceSearch { page: (s.page + 1) as i32, ..s };
    let rid = s.routine_id@;
    if s.phase is SameDayWeekOne {
        lemma_search_outcome(s0, history);
        assert(search_result(s0, history) == first_wanted(
            SearchPhase::SameRoutineWeekSeven,
            rid,
            scanned(s0, history),
        )) by {
            assert(ReferenceSearch { phase: SearchPhase::SameRoutineWeekSeven, page: 0, ..s0 } == s0);
        }
    }
    if s.page + 1 < MAX_PAGES {
        lemma_search_outcome(nx, history);
        assert(ReferenceSearch { phase: SearchPhase::SameRoutineWeekSeven, page: 0, ..nx } == s0);
    }
    if s.page + 1 >= MAX_PAGES {
        assert(scanned(nx, history) == Seq::<WorkoutResponse>::empty());
    }
    match fetched(history, s.page as int) {
        Some(p) => {
            lemma_first_wanted_concat(s.phase, rid, p.workouts@, scanned(nx, history));
        },
        None => {},
    }
}

/// Builds the cycle context of a request.
#[derive(Clone, Copy, Debug)]
pub struct DeloadContextBuilder {
    pub deload_calculator: DeloadCalculator,
}

impl DeloadContextBuilder {
    pub fn new(deload_calculator: DeloadCalculator) -> (r: DeloadContextBuilder)
        ensures
            r.deload_calculator == deload_calculator,
    {
        DeloadContextBuilder { deload_calculator }
    }

    /// The context for a session in week `current_week_index`, given the
    /// reference that the history search found (`None` where it found none,
    /// or could not fetch any page): the search can only change the text,
    /// never fail the request.
    pub fn create_deload_transition_context(
        &self,
        current_week_index: u32,
        reference: Option<&WorkoutResponse>,
    ) -> (r: DeloadContext)
        ensures
            context_matches(
                r,
                self.deload_calculator.deload_intensity_percent,
                current_week_index,
                match reference {
                    Some(w) => Some(*w),
                    None => None,
                },
            ),
            current_week_index < 8 ==> r.cycle_instruction@.len() == 0
                && r.reference_data@.len() == 0,
    {
        let next = next_week_index(current_week_index);
        if current_week_index < 8 {
            return DeloadContext {
                next_week_index: next,
                cycle_instruction: String::new(),
                reference_data: String::new(),
            };
        }
        match reference {
            Some(w) => {
                let instruction = self.deload_calculator.generate_deload_instruction(true);
                let label = if extract_week_from_title(w.title.as_str()) == Some(1u32) {
                    WEEK_ONE_LABEL
                } else {
                    WEEK_SEVEN_LABEL
                };
                let mut reference_data = String::from_str("\n\n");
                reference_data.append(label);
                reference_data.append(" (for deload calculation):\n");
                reference_data.append(format_workout_for_prompt(w).as_str());
                let mut cycle_instruction = String::from_str("\n\n");
                cycle_instruction.append(instruction.as_str());
                let r = DeloadContext { next_week_index: next, cycle_instruction, reference_data };
                assert(r.reference_data@ =~= "\n\n"@ + reference_label(*w)
                    + " (for deload calculation):\n"@ + workout_text(*w));
                assert(r.cycle_instruction@ =~= "\n\n"@ + instruction_text(
                    self.deload_calculator.deload_intensity_percent,
                    true,
                ));
                r
            },
            None => {
                let instruction = self.deload_calculator.generate_deload_instruction(false);
                let mut cycle_instruction = String::from_str("\n\n");
                cycle_instruction.append(instruction.as_str());
                let r = DeloadContext {
                    next_week_index: next,
                    cycle_instruction,
                    reference_data: String::new(),
                };
                assert(r.cycle_instruction@ =~= "\n\n"@ + instruction_text(
                    self.deload_calculator.deload_intensity_percent,
                    false,
                ));
                r
            },
        }
    }
}

} // verus!
