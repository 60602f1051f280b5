//! Per-exercise notes written back into the routine: the number of working
//! sets, the RPE target, and one line per working set.
use vstd::prelude::*;
use crate::models::{Exercise, ExerciseSet};
use crate::overload::ProgressiveOverloadResponse;
use crate::prompt::{push_tenths, tenths_text};
use crate::text::{chars_of, decimal, is_digit, is_space, push_decimal};
use crate::title::{skip_spaces, skip_spaces_exec, word_at, word_at_exec};

verus! {

pub open spec fn rpe_keyword() -> Seq<char> {
    seq!['r', 'p', 'e']
}

pub open spec fn warmup_keyword() -> Seq<char> {
    seq!['w', 'a', 'r', 'm', 'u', 'p']
}

/// A warm-up set: its type is "warmup", ASCII case ignored.
pub open spec fn is_warmup(s: ExerciseSet) -> bool {
    s.set_type@.len() == warmup_keyword().len() && word_at(s.set_type@, 0, warmup_keyword())
}

/// The working sets (all but warm-ups), in order.
pub open spec fn working_sets(sets: Seq<ExerciseSet>) -> Seq<ExerciseSet>
    decreases sets.len(),
{
    if sets.len() == 0 {
        Seq::empty()
    } else if is_warmup(sets.last()) {
        working_sets(sets.drop_last())
    } else {
        working_sets(sets.drop_last()).push(sets.last())
    }
}

/// The first position of "rpe" in `s` at or after `i`, case ignored.
pub open spec fn rpe_from(s: Seq<char>, i: int) -> Option<int>
    decreases s.len() - i,
{
    if i < 0 || i >= s.len() {
        None
    } else if word_at(s, i, rpe_keyword()) {
        Some(i)
    } else {
        rpe_from(s, i + 1)
    }
}

/// The end of the word (run of non-space characters) that starts at `i`.
pub open spec fn word_end(s: Seq<char>, i: int) -> int
    decreases s.len() - i,
{
    if 0 <= i < s.len() && !is_space(s[i]) {
        word_end(s, i + 1)
    } else {
        i
    }
}

/// A word that reads as an RPE target: digits and hyphens, one digit at
/// least ("8", "7-8").
pub open spec fn is_rpe_value(w: Seq<char>) -> bool {
    &&& exists|j: int| 0 <= j < w.len() && is_digit(#[trigger] w[j])
    &&& forall|j: int| 0 <= j < w.len() ==> is_digit(#[trigger] w[j]) || w[j] == '-'
}

/// The RPE target of exercise notes: of the two words that follow the first
/// "rpe" (case ignored), the first that reads as an RPE target.
pub open spec fn rpe_of(s: Seq<char>) -> Option<Seq<char>> {
    match rpe_from(s, 0) {
        None => None,
        Some(i) => {
            let a1 = skip_spaces(s, i + 3);
            let e1 = word_end(s, a1);
            let a2 = skip_spaces(s, e1);
            let e2 = word_end(s, a2);
            if a1 < s.len() && is_rpe_value(s.subrange(a1, e1)) {
                Some(s.subrange(a1, e1))
            } else if a2 < s.len() && is_rpe_value(s.subrange(a2, e2)) {
                Some(s.subrange(a2, e2))
            } else {
                None
            }
        },
    }
}

pub open spec fn suggestion_reps_text(r: Option<u32>) -> Seq<char> {
    match r {
        Some(n) => decimal(n as nat),
        None => "?"@,
    }
}

/// One working set: `<weight>x<reps>`, or `<reps> reps` without a weight.
pub open spec fn set_entry(s: ExerciseSet) -> Seq<char> {
    match s.weight_kg {
        Some(q) => tenths_text(q.tenths as int) + "x"@ + suggestion_reps_text(s.reps),
        None => suggestion_reps_text(s.reps) + " reps"@,
    }
}

/// The lines of the given sets, each after a line break.
pub open spec fn entry_lines(sets: Seq<ExerciseSet>) -> Seq<char>
    decreases sets.len(),
{
    if sets.len() == 0 {
        Seq::empty()
    } else {
        entry_lines(sets.drop_last()) + "\n"@ + set_entry(sets.last())
    }
}

pub open spec fn rpe_line(notes: Option<String>) -> Seq<char> {
    match notes {
        Some(n) => match rpe_of(n@) {
            Some(v) => "\nRPE "@ + v,
            None => Seq::empty(),
        },
        None => Seq::empty(),
    }
}

/// The note for an exercise with working sets.
pub open spec fn note_text(e: Exercise) -> Seq<char> {
    let w = working_sets(e.sets@);
    decimal(w.len()) + " sets"@ + rpe_line(e.notes) + entry_lines(w)
}

/// The notes by template id: each exercise with a working set gives its
/// note; a later exercise with the same template id replaces an earlier one.
pub open spec fn suggestions_of(es: Seq<Exercise>) -> Map<Seq<char>, Seq<char>>
    decreases es.len(),
{
    if es.len() == 0 {
        Map::empty()
    } else if working_sets(es.last().sets@).len() > 0 {
        suggestions_of(es.drop_last()).insert(es.last().exercise_template_id@, note_text(es.last()))
    } else {
        suggestions_of(es.drop_last())
    }
}

/// The map that a list of entries stands for, later entries winning.
pub open spec fn entries_map(entries: Seq<(String, String)>) -> Map<Seq<char>, Seq<char>>
    decreases entries.len(),
{
    if entries.len() == 0 {
        Map::empty()
    } else {
        entries_map(entries.drop_last()).insert(entries.last().0@, entries.last().1@)
    }
}

/// Notes by exercise template id, one entry per id.
#[derive(Clone, Debug)]
pub struct ExerciseSuggestions {
    pub entries: Vec<(String, String)>,
}

impl View for ExerciseSuggestions {
    type V = Map<Seq<char>, Seq<char>>;

    open spec fn view(&self) -> Map<Seq<char>, Seq<char>> {
        entries_map(self.entries@)
    }
}

proof fn lemma_entries_map_keys(entries: Seq<(String, String)>, k: Seq<char>)
    ensures
        entries_map(entries).contains_key(k) <==> exists|j: int|
            0 <= j < entries.len() && (#[trigger] entries[j]).0@ == k,
    decreases entries.len(),
{
    if entries.len() > 0 {
        lemma_entries_map_keys(entries.drop_last(), k);
        if entries_map(entries.drop_last()).contains_key(k) {
            let j = choose|j: int|
                0 <= j < entries.drop_last().len() && (#[trigger] entries.drop_last()[j]).0@ == k;
            assert(entries[j] == entries.drop_last()[j]);
        }
        if exists|j: int| 0 <= j < entries.len() && (#[trigger] entries[j]).0@ == k {
            let j = choose|j: int| 0 <= j < entries.len() && (#[trigger] entries[j]).0@ == k;
            if j < entries.len() - 1 {
                assert(entries.drop_last()[j] == entries[j]);
            }
        }
    }
}

proof fn lemma_entries_map_replace(entries: Seq<(String, String)>, j: int, e: (String, String))
    requires
        0 <= j < entries.len(),
        entries[j].0@ == e.0@,
        forall|a: int, b: int|
            0 <= a < b < entries.len() ==> (#[trigger] entries[a]).0@ != (#[trigger] entries[b]).0@,
    ensures
        entries_map(entries.update(j, e)) == entries_map(entries).insert(e.0@, e.1@),
    decreases entries.len(),
{
    let u = entries.update(j, e);
    if j == entries.len() - 1 {
        assert(u.drop_last() =~= entries.drop_last());
        assert(entries_map(u) =~= entries_map(entries).insert(e.0@, e.1@));
    } else {
        let d = entries.drop_last();
        assert(u.drop_last() =~= d.update(j, e));
        assert forall|a: int, b: int| 0 <= a < b < d.len() implies (#[trigger] d[a]).0@ != (
        #[trigger] d[b]).0@ by {
            assert(d[a] == entries[a] && d[b] == entries[b]);
        }
        lemma_entries_map_replace(d, j, e);
        assert(entries[j] == d[j]);
        assert(entries.last() == entries[entries.len() - 1]);
        assert(entries_map(u) =~= entries_map(entries).insert(e.0@, e.1@));
    }
}

impl ExerciseSuggestions {
    pub open spec fn well_formed(&self) -> bool {
        forall|a: int, b: int|
            0 <= a < b < self.entries@.len() ==> (#[trigger] self.entries@[a]).0@ != (
            #[trigger] self.entries@[b]).0@
    }

    pub fn new() -> (r: ExerciseSuggestions)
        ensures
            r.well_formed(),
            r@ == Map::<Seq<char>, Seq<char>>::empty(),
    {
        ExerciseSuggestions { entries: Vec::new() }
    }

    /// Sets the note of `template_id`, replacing any earlier one.
    pub fn insert(&mut self, template_id: String, note: String)
        requires
            old(self).well_formed(),
        ensures
            final(self).well_formed(),
            final(self)@ == old(self)@.insert(template_id@, note@),
    {
        let mut j: usize = 0;
        while j < self.entries.len()
            invariant
                j <= self.entries@.len(),
                *self == *old(self),
                self.well_formed(),
                forall|a: int| 0 <= a < j ==> (#[trigger] self.entries@[a]).0@ != template_id@,
            decreases self.entries.len() - j,
        {
            if self.entries[j].0 == template_id {
                proof {
                    lemma_entries_map_replace(self.entries@, j as int, (template_id, note));
                }
                let ghost before = self.entries@;
                self.entries.set(j, (template_id, note));
                proof {
                    assert(self.entries@ == before.update(j as int, (template_id, note)));
                    assert forall|a: int, b: int| 0 <= a < b < self.entries@.len() implies (
                    #[trigger] self.entries@[a]).0@ != (#[trigger] self.entries@[b]).0@ by {
                        assert(before[a].0@ != before[b].0@);
                    }
                }
                return;
            }
            j += 1;
        }
        let ghost before = self.entries@;
        self.entries.push((template_id, note));
        proof {
            assert(self.entries@.drop_last() =~= before);
        }
    }

    /// The note of `template_id`, if there is one.
    pub fn get(&self, template_id: &String) -> (r: Option<&String>)
        requires
            self.well_formed(),
        ensures
            r matches Some(n) ==> self@.contains_key(template_id@) && self@[template_id@] == n@,
            r is None ==> !self@.contains_key(template_id@),
    {
        let mut j: usize = 0;
        while j < self.entries.len()
            invariant
                j <= self.entries@.len(),
                self.well_formed(),
                forall|a: int| 0 <= a < j ==> (#[trigger] self.entries@[a]).0@ != template_id@,
            decreases self.entries.len() - j,
        {
            if self.entries[j].0 == *template_id {
                proof {
                    lemma_entry_value(self.entries@, j as int);
                }
                return Some(&self.entries[j].1);
            }
            j += 1;
        }
        proof {
            lemma_entries_map_keys(self.entries@, template_id@);
        }
        None
    }

    /// The number of template ids with a note.
    pub fn len(&self) -> (r: usize)
        requires
            self.well_formed(),
        ensures
            r == self@.dom().len(),
    {
        proof {
            lemma_entries_map_len(self.entries@);
        }
        self.entries.len()
    }
}

proof fn lemma_entry_value(entries: Seq<(String, String)>, j: int)
    requires
        0 <= j < entries.len(),
        forall|a: int, b: int|
            0 <= a < b < entries.len() ==> (#[trigger] entries[a]).0@ != (#[trigger] entries[b]).0@,
    ensures
        entries_map(entries).contains_key(entries[j].0@),
        entries_map(entries)[entries[j].0@] == entries[j].1@,
    decreases entries.len(),
{
    if j < entries.len() - 1 {
        let d = entries.drop_last();
        assert(d[j] == entries[j]);
        assert forall|a: int, b: int| 0 <= a < b < d.len() implies (#[trigger] d[a]).0@ != (
        #[trigger] d[b]).0@ by {
            assert(d[a] == entries[a] && d[b] == entries[b]);
        }
        lemma_entry_value(d, j);
        assert(entries[entries.len() - 1].0@ != entries[j].0@);
    }
}

proof fn lemma_entries_map_len(entries: Seq<(String, String)>)
    requires
        forall|a: int, b: int|
            0 <= a < b < entries.len() ==> (#[trigger] entries[a]).0@ != (#[trigger] entries[b]).0@,
    ensures
        entries_map(entries).dom().finite(),
        entries_map(entries).dom().len() == entries.len(),
    decreases entries.len(),
{
    if entries.len() > 0 {
        let d = entries.drop_last();
        assert forall|a: int, b: int| 0 <= a < b < d.len() implies (#[trigger] d[a]).0@ != (
        #[trigger] d[b]).0@ by {
            assert(d[a] == entries[a] && d[b] == entries[b]);
        }
        lemma_entries_map_len(d);
        lemma_entries_map_keys(d, entries.last().0@);
        if entries_map(d).contains_key(entries.last().0@) {
            let j = choose|j: int| 0 <= j < d.len() && (#[trigger] d[j]).0@ == entries.last().0@;
            assert(d[j] == entries[j]);
            assert(entries[j].0@ != entries[entries.len() - 1].0@);
        }
    }
}

fn rpe_chars() -> (r: Vec<char>)
    ensures
        r@ == rpe_keyword(),
{
    let r = vec!['r', 'p', 'e'];
    assert(r@ =~= rpe_keyword());
    r
}

fn is_warmup_exec(s: &ExerciseSet) -> (r: bool)
    ensures
        r == is_warmup(*s),
{
    let t = chars_of(s.set_type.as_str());
    let kw = vec!['w', 'a', 'r', 'm', 'u', 'p'];
    assert(kw@ =~= warmup_keyword());
    t.len() == 6 && word_at_exec(&t, 0, &kw)
}

fn word_end_exec(s: &Vec<char>, i: usize) -> (r: usize)
    requires
        i <= s.len(),
    ensures
        r == word_end(s@, i as int),
        i <= r <= s.len(),
{
    let mut k = i;
    while k < s.len() && !crate::text::is_space_char(s[k])
        invariant
            i <= k <= s.len(),
            word_end(s@, k as int) == word_end(s@, i as int),
        decreases s.len() - k,
    {
        k += 1;
    }
    k
}

fn is_rpe_value_exec(s: &Vec<char>, from: usize, to: usize) -> (r: bool)
    requires
        from <= to <= s.len(),
    ensures
        r == is_rpe_value(s@.subrange(from as int, to as int)),
{
    let ghost w = s@.subrange(from as int, to as int);
    let mut has_digit = false;
    let mut k = from;
    while k < to
        invariant
            from <= k <= to <= s.len(),
            w == s@.subrange(from as int, to as int),
            forall|j: int| 0 <= j < k - from ==> is_digit(#[trigger] w[j]) || w[j] == '-',
            has_digit <==> exists|j: int| 0 <= j < k - from && is_digit(#[trigger] w[j]),
        decreases to - k,
    {
        let c = s[k];
        let digit = '0' <= c && c <= '9';
        if !digit && c != '-' {
            assert(!(is_digit(w[k - from]) || w[k - from] == '-'));
            return false;
        }
        if digit {
            assert(is_digit(w[k - from]));
            has_digit = true;
        }
        k += 1;
    }
    has_digit
}

fn find_rpe(s: &Vec<char>) -> (r: Option<usize>)
    ensures
        r matches Some(i) ==> rpe_from(s@, 0) == Some(i as int) && word_at(s@, i as int, rpe_keyword()),
        r is None ==> rpe_from(s@, 0) is None,
{
    let kw = rpe_chars();
    let mut i: usize = 0;
    while i < s.len()
        invariant
            i <= s.len(),
            kw@ == rpe_keyword(),
            rpe_from(s@, 0) == rpe_from(s@, i as int),
        decreases s.len() - i,
    {
        if word_at_exec(s, i, &kw) {
            return Some(i);
        }
        i += 1;
    }
    None
}

/// The RPE target written in exercise notes: of the two words after the
/// first "rpe" (case ignored), the first made of digits and hyphens.
pub fn extract_rpe_from_notes(notes: &str) -> (r: Option<String>)
    ensures
        r matches Some(v) ==> rpe_of(notes@) == Some(v@),
        r is None ==> rpe_of(notes@) is None,
{
    let s = chars_of(notes);
    let n = s.len();
    match find_rpe(&s) {
        None => None,
        Some(i) => {
            assert(i + 3 <= n);
            let a1 = skip_spaces_exec(&s, i + 3);
            let e1 = word_end_exec(&s, a1);
            let a2 = skip_spaces_exec(&s, e1);
            let e2 = word_end_exec(&s, a2);
            if a1 < n && is_rpe_value_exec(&s, a1, e1) {
                Some(String::from_str(notes.substring_char(a1, e1)))
            } else if a2 < n && is_rpe_value_exec(&s, a2, e2) {
                Some(String::from_str(notes.substring_char(a2, e2)))
            } else {
                None
            }
        },
    }
}

proof fn lemma_working_step(sets: Seq<ExerciseSet>, k: int)
    requires
        0 <= k < sets.len(),
    ensures
        working_sets(sets.subrange(0, k + 1)) == if is_warmup(sets[k]) {
            working_sets(sets.subrange(0, k))
        } else {
            working_sets(sets.subrange(0, k)).push(sets[k])
        },
{
    assert(sets.subrange(0, k + 1).drop_last() =~= sets.subrange(0, k));
}

fn count_working(sets: &Vec<ExerciseSet>) -> (r: usize)
    ensures
        r == working_sets(sets@).len(),
{
    let mut n: usize = 0;
    let mut k: usize = 0;
    while k < sets.len()
        invariant
            k <= sets@.len(),
            n == working_sets(sets@.subrange(0, k as int)).len(),
            n <= k,
        decreases sets.len() - k,
    {
        proof {
            lemma_working_step(sets@, k as int);
        }
        if !is_warmup_exec(&sets[k]) {
            n += 1;
        }
        k += 1;
    }
    assert(sets@.subrange(0, sets@.len() as int) =~= sets@);
    n
}

fn push_suggestion_reps(out: &mut String, reps: Option<u32>)
    ensures
        final(out)@ == old(out)@ + suggestion_reps_text(reps),
{
    match reps {
        Some(n) => push_decimal(out, n as u64),
        None => out.append("?"),
    }
}

fn push_entry(out: &mut String, s: &ExerciseSet)
    ensures
        final(out)@ == old(out)@ + set_entry(*s),
{
    match s.weight_kg {
        Some(q) => {
            push_tenths(out, q.tenths);
            out.append("x");
            push_suggestion_reps(out, s.reps);
        },
        None => {
            push_suggestion_reps(out, s.reps);
            out.append(" reps");
        },
    }
    assert(final(out)@ =~= old(out)@ + set_entry(*s));
}

/// The note of an exercise with at least one working set.
fn exercise_note(e: &Exercise, working: usize) -> (r: String)
    requires
        working == working_sets(e.sets@).len(),
    ensures
        r@ == note_text(*e),
{
    let mut out = crate::text::decimal_string(working as u64);
    out.append(" sets");
    match &e.notes {
        Some(n) => match extract_rpe_from_notes(n.as_str()) {
            Some(v) => {
                out.append("\nRPE ");
                out.append(v.as_str());
            },
            None => {},
        },
        None => {},
    }
    let ghost head = out@;
    assert(head =~= decimal(working as nat) + " sets"@ + rpe_line(e.notes));
    let mut k: usize = 0;
    while k < e.sets.len()
        invariant
            k <= e.sets@.len(),
            out@ == head + entry_lines(working_sets(e.sets@.subrange(0, k as int))),
        decreases e.sets.len() - k,
    {
        proof {
            lemma_working_step(e.sets@, k as int);
        }
        if !is_warmup_exec(&e.sets[k]) {
            out.append("\n");
            push_entry(&mut out, &e.sets[k]);
            proof {
                let w = working_sets(e.sets@.subrange(0, k + 1));
                assert(w.drop_last() == working_sets(e.sets@.subrange(0, k as int)));
                assert(out@ =~= head + entry_lines(w));
            }
        }
        k += 1;
    }
    assert(e.sets@.subrange(0, e.sets@.len() as int) =~= e.sets@);
    out
}

/// The note for each updated exercise that has a working set, by template
/// id: "<N> sets", then "RPE <target>" where the notes give one, then one
/// line per working set.
pub fn build_exercise_suggestions(response: &ProgressiveOverloadResponse) -> (r: ExerciseSuggestions)
    ensures
        r.well_formed(),
        r@ == suggestions_of(response.updated_exercises@),
{
    let es = &response.updated_exercises;
    let mut out = ExerciseSuggestions::new();
    let mut i: usize = 0;
    while i < es.len()
        invariant
            i <= es@.len(),
            out.well_formed(),
            out@ == suggestions_of(es@.subrange(0, i as int)),
        decreases es.len() - i,
    {
        let e = &es[i];
        proof {
            assert(es@.subrange(0, i + 1).drop_last() =~= es@.subrange(0, i as int));
        }
        let working = count_working(&e.sets);
        if working > 0 {
            let note = exercise_note(e, working);
            out.insert(e.exercise_template_id.clone(), note);
        }
        i += 1;
    }
    assert(es@.subrange(0, es@.len() as int) =~= es@);
    out
}

/// A template id gets a note exactly when some updated exercise of that
/// template has a working set: an exercise made only of warm-ups adds none.
pub proof fn lemma_suggestion_keys(es: Seq<Exercise>, k: Seq<char>)
    ensures
        suggestions_of(es).contains_key(k) <==> exists|i: int|
            0 <= i < es.len() && (#[trigger] es[i]).exercise_template_id@ == k && working_sets(
                es[i].sets@,
            ).len() > 0,
    decreases es.len(),
{
    if es.len() > 0 {
        let d = es.drop_last();
        lemma_suggestion_keys(d, k);
        if suggestions_of(d).contains_key(k) {
            let i = choose|i: int|
                0 <= i < d.len() && (#[trigger] d[i]).exercise_template_id@ == k && working_sets(
                    d[i].sets@,
                ).len() > 0;
            assert(es[i] == d[i]);
        }
        if exists|i: int|
            0 <= i < es.len() && (#[trigger] es[i]).exercise_template_id@ == k && working_sets(
                es[i].sets@,
            ).len() > 0 {
            let i = choose|i: int|
                0 <= i < es.len() && (#[trigger] es[i]).exercise_template_id@ == k && working_sets(
                    es[i].sets@,
                ).len() > 0;
            if i < es.len() - 1 {
                assert(d[i] == es[i]);
            }
        }
    }
}

/// The working sets of a list made only of warm-ups are none.
pub proof fn lemma_all_warmups_work_none(sets: Seq<ExerciseSet>)
    requires
        forall|j: int| 0 <= j < sets.len() ==> is_warmup(#[trigger] sets[j]),
    ensures
        working_sets(sets).len() == 0,
    decreases sets.len(),
{
    if sets.len() > 0 {
        let d = sets.drop_last();
        assert forall|j: int| 0 <= j < d.len() implies is_warmup(#[trigger] d[j]) by {
            assert(d[j] == sets[j]);
        }
        lemma_all_warmups_work_none(d);
        assert(is_warmup(sets[sets.len() - 1]));
    }
}

} // verus!
