//! Decoding the model's reply: the JSON document is taken from a fenced
//! ```json block where there is one, else from the whole reply; only the
//! exercise array is required.
use vstd::prelude::*;
use crate::overload::ProcessingError;
use crate::text::{chars_of, is_space, is_space_char};

verus! {

/// serde_json's parsed document, carried through opaque.
#[verifier::external_type_specification]
#[verifier::external_body]
pub struct ExJsonValue(serde_json::Value);

/// serde_json's parse error, carried through opaque.
#[verifier::external_type_specification]
#[verifier::external_body]
pub struct ExJsonError(serde_json::Error);

/// Whether serde_json accepts `text` as one JSON document.
pub uninterp spec fn json_accepts(text: Seq<char>) -> bool;

/// The number of elements of member `key` of the document `text`, where
/// serde_json accepts the text and that member is an array.
pub uninterp spec fn json_array_len_of(text: Seq<char>, key: Seq<char>) -> Option<nat>;

/// Member `key` of the document `text` as serde_json reads it as a `u64`
/// (a non-negative integer that fits), where there is one.
pub uninterp spec fn json_u64_of(text: Seq<char>, key: Seq<char>) -> Option<u64>;

/// The text of member `key` of the document `text`, where that member is a
/// JSON string.
pub uninterp spec fn json_str_of(text: Seq<char>, key: Seq<char>) -> Option<Seq<char>>;

/// Relies on serde_json::from_str into a `Value`: whether it succeeds
/// depends on the text alone.
#[verifier::external_body]
fn parse_json(text: &str) -> (r: Result<serde_json::Value, serde_json::Error>)
    ensures
        r is Ok <==> json_accepts(text@),
{
    serde_json::from_str(text)
}

/// Relies on serde_json::from_str into a `Value`, `Value::get` with a
/// string key and `Value::as_array`: the elements of the member, which
/// depend on the text and the key alone.
#[verifier::external_body]
fn json_array_member(text: &str, key: &str) -> (r: Option<Vec<serde_json::Value>>)
    ensures
        match json_array_len_of(text@, key@) {
            Some(n) => r matches Some(v) && v@.len() == n,
            None => r is None,
        },
{
    let doc: serde_json::Value = match serde_json::from_str(text) {
        Ok(v) => v,
        Err(_) => return None,
    };
    match doc.get(key) {
        Some(m) => m.as_array().cloned(),
        None => None,
    }
}

/// Relies on serde_json::from_str into a `Value`, `Value::get` with a
/// string key and `Value::as_u64`: the result depends on the text and the
/// key alone.
#[verifier::external_body]
fn json_u64_member(text: &str, key: &str) -> (r: Option<u64>)
    ensures
        r == json_u64_of(text@, key@),
{
    let doc: serde_json::Value = match serde_json::from_str(text) {
        Ok(v) => v,
        Err(_) => return None,
    };
    match doc.get(key) {
        Some(m) => m.as_u64(),
        None => None,
    }
}

/// Relies on serde_json::from_str into a `Value`, `Value::get` with a
/// string key and `Value::as_str`: the result depends on the text and the
/// key alone.
#[verifier::external_body]
fn json_str_member(text: &str, key: &str) -> (r: Option<String>)
    ensures
        match json_str_of(text@, key@) {
            Some(t) => r matches Some(v) && v@ == t,
            None => r is None,
        },
{
    let doc: serde_json::Value = match serde_json::from_str(text) {
        Ok(v) => v,
        Err(_) => return None,
    };
    match doc.get(key) {
        Some(m) => match m.as_str() {
            Some(t) => Some(t.to_string()),
            None => None,
        },
        None => None,
    }
}

pub open spec fn json_fence() -> Seq<char> {
    seq!['`', '`', '`', 'j', 's', 'o', 'n']
}

pub open spec fn fence() -> Seq<char> {
    seq!['`', '`', '`']
}

/// `pat` stands at position `i` of `s`, exactly.
pub open spec fn occurs_at(s: Seq<char>, i: int, pat: Seq<char>) -> bool {
    0 <= i && i + pat.len() <= s.len() && s.subrange(i, i + pat.len()) == pat
}

/// The first position at or after `i` where `pat` stands.
pub open spec fn find_from(s: Seq<char>, pat: Seq<char>, i: int) -> Option<int>
    decreases s.len() - i,
{
    if i < 0 || i >= s.len() {
        None
    } else if occurs_at(s, i, pat) {
        Some(i)
    } else {
        find_from(s, pat, i + 1)
    }
}

/// The end of `s[..j]` once trailing white space is dropped.
pub open spec fn trim_end_index(s: Seq<char>, j: int) -> int
    decreases j,
{
    if 0 < j <= s.len() && is_space(s[j - 1]) {
        trim_end_index(s, j - 1)
    } else {
        j
    }
}

/// The first position at or after `i` that holds no white space.
pub open spec fn trim_start_index(s: Seq<char>, i: int) -> int
    decreases s.len() - i,
{
    if 0 <= i < s.len() && is_space(s[i]) {
        trim_start_index(s, i + 1)
    } else {
        i
    }
}

/// `s` without leading and trailing white space.
pub open spec fn trimmed(s: Seq<char>) -> Seq<char> {
    let t = s.subrange(trim_start_index(s, 0), s.len() as int);
    t.subrange(0, trim_end_index(t, t.len() as int))
}

/// The JSON text of a reply: what follows the first ```json fence, up to
/// the next ``` fence or the end; without a fence, the whole reply. Trimmed
/// either way.
pub open spec fn extracted_json(s: Seq<char>) -> Seq<char> {
    match find_from(s, json_fence(), 0) {
        Some(i) => {
            let from = i + json_fence().len();
            match find_from(s, fence(), from) {
                Some(j) => trimmed(s.subrange(from, j)),
                None => trimmed(s.subrange(from, s.len() as int)),
            }
        },
        None => trimmed(s),
    }
}

proof fn lemma_find_from_occurs(s: Seq<char>, pat: Seq<char>, i: int)
    requires
        find_from(s, pat, i) is Some,
    ensures
        occurs_at(s, find_from(s, pat, i)->0, pat),
        i <= find_from(s, pat, i)->0,
    decreases s.len() - i,
{
    if !occurs_at(s, i, pat) {
        lemma_find_from_occurs(s, pat, i + 1);
    }
}

fn occurs_at_exec(s: &Vec<char>, i: usize, pat: &Vec<char>) -> (r: bool)
    ensures
        r == occurs_at(s@, i as int, pat@),
{
    if pat.len() > s.len() || i > s.len() - pat.len() {
        return false;
    }
    let mut j: usize = 0;
    while j < pat.len()
        invariant
            i + pat.len() <= s.len(),
            j <= pat.len(),
            forall|k: int| 0 <= k < j ==> s@[i + k] == pat@[k],
        decreases pat.len() - j,
    {
        if s[i + j] != pat[j] {
            assert(s@.subrange(i as int, i + pat@.len())[j as int] != pat@[j as int]);
            return false;
        }
        j += 1;
    }
    assert(s@.subrange(i as int, i + pat@.len()) =~= pat@);
    true
}

fn find_from_exec(s: &Vec<char>, pat: &Vec<char>, i: usize) -> (r: Option<usize>)
    ensures
        r matches Some(k) ==> find_from(s@, pat@, i as int) == Some(k as int) && i <= k < s@.len(),
        r is None ==> find_from(s@, pat@, i as int) is None,
{
    let mut k = i;
    while k < s.len()
        invariant
            i <= k,
            find_from(s@, pat@, i as int) == find_from(s@, pat@, k as int),
        decreases s.len() - k,
    {
        if occurs_at_exec(s, k, pat) {
            return Some(k);
        }
        k += 1;
    }
    None
}

/// The bounds, within `s`, of `s[from..to]` trimmed.
fn trim_bounds(s: &Vec<char>, from: usize, to: usize) -> (r: (usize, usize))
    requires
        from <= to <= s.len(),
    ensures
        from <= r.0 <= r.1 <= to,
        s@.subrange(r.0 as int, r.1 as int) == trimmed(s@.subrange(from as int, to as int)),
{
    let ghost seg = s@.subrange(from as int, to as int);
    let mut a = from;
    while a < to && is_space_char(s[a])
        invariant
            from <= a <= to <= s.len(),
            seg == s@.subrange(from as int, to as int),
            trim_start_index(seg, 0) == trim_start_index(seg, a - from),
        decreases to - a,
    {
        a += 1;
    }
    let ghost t = seg.subrange(a - from, seg.len() as int);
    assert(t =~= s@.subrange(a as int, to as int));
    let mut b = to;
    while b > a && is_space_char(s[b - 1])
        invariant
            a <= b <= to <= s.len(),
            t == s@.subrange(a as int, to as int),
            trim_end_index(t, t.len() as int) == trim_end_index(t, b - a),
        decreases b,
    {
        b -= 1;
    }
    assert(t.subrange(0, b - a) =~= s@.subrange(a as int, b as int));
    (a, b)
}

/// The JSON text of a reply: the inside of the first ```json fenced block
/// (up to the closing fence, or the end where there is none), else the
/// whole reply; trimmed either way.
pub fn extract_json_from_response(response: &str) -> (r: String)
    ensures
        r@ == extracted_json(response@),
{
    let s = chars_of(response);
    let open = vec!['`', '`', '`', 'j', 's', 'o', 'n'];
    let close = vec!['`', '`', '`'];
    assert(open@ =~= json_fence());
    assert(close@ =~= fence());
    let n = s.len();
    let (from, to) = match find_from_exec(&s, &open, 0) {
        Some(i) => {
            proof {
                lemma_find_from_occurs(s@, json_fence(), 0);
            }
            let from = i + 7;
            match find_from_exec(&s, &close, from) {
                Some(j) => (from, j),
                None => (from, n),
            }
        },
        None => {
            assert(s@.subrange(0, n as int) =~= s@);
            (0, n)
        },
    };
    assert(json_fence().len() == 7);
    assert(extracted_json(response@) == trimmed(s@.subrange(from as int, to as int)));
    let (a, b) = trim_bounds(&s, from, to);
    String::from_str(response.substring_char(a, b))
}

proof fn lemma_find_skip(s: Seq<char>, pat: Seq<char>, i: int, k: int)
    requires
        0 <= i <= k,
        forall|m: int| i <= m < k ==> !occurs_at(s, m, pat),
    ensures
        find_from(s, pat, i) == find_from(s, pat, k),
    decreases k - i,
{
    if i < k {
        lemma_find_skip(s, pat, i + 1, k);
    }
}

proof fn lemma_find_none(s: Seq<char>, pat: Seq<char>, i: int, k: int)
    requires
        0 <= i <= k,
        pat.len() > 0,
        find_from(s, pat, i) is None,
    ensures
        !occurs_at(s, k, pat),
    decreases k - i,
{
    if k < s.len() && i < k {
        lemma_find_none(s, pat, i + 1, k);
    }
}

/// An occurrence of `pat` within `a` is one within `a + b` at the same place.
proof fn lemma_occurs_in_part(a: Seq<char>, b: Seq<char>, pat: Seq<char>, i: int)
    requires
        0 <= i,
        i + pat.len() <= a.len(),
        occurs_at(a + b, i, pat),
    ensures
        occurs_at(a, i, pat),
{
    assert((a + b).subrange(i, i + pat.len()) =~= a.subrange(i, i + pat.len()));
}

proof fn lemma_opening_fence(prose: Seq<char>, rest: Seq<char>)
    requires
        find_from(prose, json_fence(), 0) is None,
        rest.len() >= 7,
        rest.subrange(0, 7) == json_fence(),
        rest[3] == 'j',
    ensures
        find_from(prose + rest, json_fence(), 0) == Some(prose.len() as int),
{
    let jf = json_fence();
    let s = prose + rest;
    let p = prose.len() as int;
    assert(s.subrange(p, p + 7) =~= rest.subrange(0, 7));
    assert forall|i: int| 0 <= i < p implies !occurs_at(s, i, jf) by {
        if occurs_at(s, i, jf) {
            if i + 7 <= p {
                lemma_occurs_in_part(prose, rest, jf, i);
                lemma_find_none(prose, jf, 0, i);
            } else {
                let k = p - i;
                let j = if k <= 3 {
                    3
                } else {
                    k
                };
                assert(s.subrange(i, i + 7)[j] == jf[j]);
                assert(s[i + j] == rest[i + j - p]);
                assert(rest[i + j - p] == rest.subrange(0, 7)[i + j - p]);
            }
        }
    }
    lemma_find_skip(s, jf, 0, p);
}

proof fn lemma_closing_fence(head: Seq<char>, body: Seq<char>, rest: Seq<char>)
    requires
        find_from(body, fence(), 0) is None,
        body.len() > 0,
        body.last() != '`',
        rest.len() >= 3,
        rest.subrange(0, 3) == fence(),
    ensures
        find_from(head + body + rest, fence(), head.len() as int) == Some(
            (head.len() + body.len()) as int,
        ),
{
    let f = fence();
    let s = head + body + rest;
    let from = head.len() as int;
    let end = from + body.len();
    assert(s.subrange(end, end + 3) =~= rest.subrange(0, 3));
    assert forall|i: int| from <= i < end implies !occurs_at(s, i, f) by {
        if occurs_at(s, i, f) {
            if i + 3 <= end {
                assert(s.subrange(i, i + 3) =~= body.subrange(i - from, i - from + 3));
                assert(occurs_at(body, i - from, f));
                lemma_find_none(body, f, 0, i - from);
            } else {
                assert(s.subrange(i, i + 3)[end - 1 - i] == f[end - 1 - i]);
                assert(s[end - 1] == body.last());
            }
        }
    }
    lemma_find_skip(s, f, from, end);
}

/// A fenced JSON block comes out as written, whatever prose stands around
/// it: the prose before holds no ```json fence, and the block is free of
/// ``` fences, surrounding white space, and a final backquote.
pub proof fn lemma_fenced_json_extracted(prose: Seq<char>, body: Seq<char>, tail: Seq<char>)
    requires
        find_from(prose, json_fence(), 0) is None,
        find_from(body, fence(), 0) is None,
        body.len() > 0,
        !is_space(body[0]),
        !is_space(body.last()),
        body.last() != '`',
    ensures
        extracted_json(prose + json_fence() + body + fence() + tail) == body,
{
    let s = prose + json_fence() + body + fence() + tail;
    let head = prose + json_fence();
    let from = head.len() as int;
    let end = from + body.len();
    let rest = json_fence() + body + fence() + tail;
    assert(s =~= prose + rest);
    assert(rest.subrange(0, 7) =~= json_fence());
    lemma_opening_fence(prose, rest);
    assert(s =~= head + body + (fence() + tail));
    assert((fence() + tail).subrange(0, 3) =~= fence());
    lemma_closing_fence(head, body, fence() + tail);
    assert(s.subrange(from, end) =~= body);
    assert(trim_start_index(body, 0) == 0);
    assert(body.subrange(0, body.len() as int) =~= body);
    assert(trim_end_index(body, body.len() as int) == body.len());
}

/// The model's reply, decoded: the exercise array (each element still a
/// JSON value), the week number and the routine title.
#[derive(Clone, Debug)]
pub struct ReplyDocument {
    pub updated_exercises: Vec<serde_json::Value>,
    pub week_number: u32,
    pub routine_title: String,
}

pub open spec fn default_routine_title() -> Seq<char> {
    "Updated Routine"@
}

/// The week number that a JSON integer gives: the integer where it fits
/// in a `u32`, else 1 as for a missing one.
pub open spec fn week_number_of(n: Option<u64>) -> u32 {
    match n {
        Some(k) => if k <= u32::MAX {
            k as u32
        } else {
            1
        },
        None => 1,
    }
}

/// A reply from its members, as read from the JSON document: the exercise
/// array is required; the week number defaults to 1 and the title to
/// "Updated Routine".
pub fn reply_from_fields(
    exercises: Option<Vec<serde_json::Value>>,
    week_number: Option<u64>,
    routine_title: Option<String>,
) -> (r: Result<ReplyDocument, ProcessingError>)
    ensures
        exercises is None ==> r == Err::<ReplyDocument, ProcessingError>(
            ProcessingError::MalformedResponse,
        ),
        exercises matches Some(es) ==> r matches Ok(d) && d.updated_exercises@ == es@
            && d.week_number == week_number_of(week_number) && d.routine_title@ == match
            routine_title {
            Some(t) => t@,
            None => default_routine_title(),
        },
{
    match exercises {
        None => Err(ProcessingError::MalformedResponse),
        Some(es) => {
            let week = match week_number {
                Some(k) => if k <= 0xffff_ffff {
                    k as u32
                } else {
                    1
                },
                None => 1,
            };
            let title = match routine_title {
                Some(t) => t,
                None => String::from_str("Updated Routine"),
            };
            Ok(ReplyDocument { updated_exercises: es, week_number: week, routine_title: title })
        },
    }
}

/// The routine title of a reply document: its `routine_title` string, else
/// "Updated Routine".
pub open spec fn reply_title_of(text: Seq<char>) -> Seq<char> {
    match json_str_of(text, "routine_title"@) {
        Some(t) => t,
        None => default_routine_title(),
    }
}

/// Decodes the model's reply. It fails, with `MalformedResponse`, exactly
/// where serde_json does not accept the JSON text or its `updated_exercises`
/// member is not an array; a missing `week_number` or `routine_title` takes
/// its default.
pub fn parse_gemini_response(response: &str) -> (r: Result<ReplyDocument, ProcessingError>)
    ensures
        r is Err <==> !json_accepts(extracted_json(response@)) || json_array_len_of(
            extracted_json(response@),
            "updated_exercises"@,
        ) is None,
        r is Err ==> r == Err::<ReplyDocument, ProcessingError>(ProcessingError::MalformedResponse),
        r matches Ok(d) ==> {
            let t = extracted_json(response@);
            &&& json_array_len_of(t, "updated_exercises"@) == Some(d.updated_exercises@.len())
            &&& d.week_number == week_number_of(json_u64_of(t, "week_number"@))
            &&& d.routine_title@ == reply_title_of(t)
        },
{
    let text = extract_json_from_response(response);
    match parse_json(text.as_str()) {
        Ok(_) => {},
        Err(_) => return Err(ProcessingError::MalformedResponse),
    }
    let exercises = json_array_member(text.as_str(), "updated_exercises");
    let week_number = json_u64_member(text.as_str(), "week_number");
    let routine_title = json_str_member(text.as_str(), "routine_title");
    reply_from_fields(exercises, week_number, routine_title)
}

} // verus!
