//! Tally submission: parsing the answer event out of a query string,
//! checking the session window, and applying the answer to the session's
//! scorecard.
use vstd::prelude::*;

use crate::ids::TallyError;
use crate::ids::check_session_spec;
use crate::ids::parse_ulid;
use crate::ids::ulid_parse;
use crate::ids::ulid_text;
use crate::ids::ulid_to_string;
use crate::ids::validate_ulid;
use crate::query::get_param;
use crate::query::lookup;
use crate::query::pairs_view;
use crate::query::parse_pairs;
use crate::query::simple_query_parser;
use crate::scorecard::Scorecard;
use crate::scorecard::apply_tally;
use crate::scorecard::bumped;
use crate::scorecard::bumped_zero;
use crate::scorecard::scorecard_key;

verus! {

/// One answer event: the session it belongs to, the answered food
/// category, and whether the answer was correct.
pub struct Tally {
    pub ulid: String,
    pub food: String,
    pub correct: bool,
}

/// The `correct` query parameter is truthy: it case-insensitively starts
/// with `t`.
pub open spec fn truthy(v: Seq<char>) -> bool {
    v.len() > 0 && (v[0] == 't' || v[0] == 'T')
}

/// Whether the `correct` parameter's value is truthy.
fn is_truthy(v: &String) -> (r: bool)
    ensures
        r == truthy(v@),
{
    if v.as_str().unicode_len() == 0 {
        return false;
    }
    let c = v.as_str().get_char(0);
    c == 't' || c == 'T'
}

/// Extracts an answer event from a query string. All three parameters
/// must be present: `ulid` the session id, `food` the answered category,
/// and `correct`, truthy when it case-insensitively starts with `t`. The
/// session id must parse and its game window must not have elapsed; the
/// returned event carries the id exactly as submitted.
pub fn parse_query_params(query: &str) -> (r: Result<Tally, TallyError>)
    ensures
        ({
            let ps = parse_pairs(query@);
            match r {
                Ok(t) => {
                    &&& lookup(ps, "ulid"@) == Some(t.ulid@)
                    &&& lookup(ps, "food"@) == Some(t.food@)
                    &&& (lookup(ps, "correct"@) matches Some(c) && t.correct == truthy(c))
                    &&& ulid_parse(t.ulid@) is Some
                    &&& exists|now: i64| #[trigger] check_session_spec(
                        ulid_parse(t.ulid@),
                        now,
                    ) is Ok
                },
                Err(TallyError::MissingParam) => lookup(ps, "ulid"@) is None || lookup(
                    ps,
                    "food"@,
                ) is None || lookup(ps, "correct"@) is None,
                Err(TallyError::InvalidSession) => lookup(ps, "ulid"@) matches Some(u)
                    && ulid_parse(u) is None,
                Err(TallyError::SessionExpired) => lookup(ps, "ulid"@) matches Some(u)
                    && ulid_parse(u) is Some && exists|now: i64| #[trigger] check_session_spec(
                    ulid_parse(u),
                    now,
                ) == Err::<(u64, u64), TallyError>(TallyError::SessionExpired),
            }
        }),
{
    let params = simple_query_parser(query);
    let ulid_key = "ulid".to_owned();
    let food_key = "food".to_owned();
    let correct_key = "correct".to_owned();
    let ulid = get_param(&params, &ulid_key);
    let food = get_param(&params, &food_key);
    let correct = get_param(&params, &correct_key);
    match (ulid, food, correct) {
        (Some(ulid), Some(food), Some(correct)) => {
            match validate_ulid(ulid.as_str()) {
                Ok(_) => {
                    let correct = is_truthy(&correct);
                    Ok(Tally { ulid, food, correct })
                },
                Err(e) => Err(e),
            }
        },
        _ => Err(TallyError::MissingParam),
    }
}

/// Extracts and parses the session id from a scorecard read's query
/// string: `MissingParam` without a `ulid` parameter, `InvalidSession`
/// when it does not parse, the id's halves otherwise. No session window
/// applies to reads.
pub fn get_ulid(query: &str) -> (r: Result<(u64, u64), TallyError>)
    ensures
        ({
            let ps = parse_pairs(query@);
            match r {
                Ok(bits) => lookup(ps, "ulid"@) matches Some(u) && ulid_parse(u) == Some(bits),
                Err(TallyError::MissingParam) => lookup(ps, "ulid"@) is None,
                Err(TallyError::InvalidSession) => lookup(ps, "ulid"@) matches Some(u)
                    && ulid_parse(u) is None,
                Err(TallyError::SessionExpired) => false,
            }
        }),
{
    let params = simple_query_parser(query);
    let ulid_key = "ulid".to_owned();
    match get_param(&params, &ulid_key) {
        None => Err(TallyError::MissingParam),
        Some(u) => match parse_ulid(u.as_str()) {
            None => Err(TallyError::InvalidSession),
            Some(bits) => Ok(bits),
        },
    }
}

/// Applies one answer event to what the store held for its session and
/// says what to write back.
///
/// An event that was not correct is a no-op that still succeeds: nothing
/// is written. A correct event re-parses the event's session id (no
/// session window applies here; that was checked when the event was
/// parsed), starts from the stored scorecard — or from a blank one when
/// the store held none — and returns the store key, derived from the
/// id's canonical rendering, together with the updated scorecard to write
/// under it.
pub fn tally_score(tally: &Tally, prior: Option<Scorecard>) -> (r: Result<
    Option<(String, Scorecard)>,
    TallyError,
>)
    requires
        prior matches Some(c) ==> c.wf() && c.total < i32::MAX,
    ensures
        match r {
            Ok(None) => !tally.correct,
            Ok(Some((key, card))) => {
                &&& tally.correct
                &&& ulid_parse(tally.ulid@) matches Some(bits) && key@ == "fw-"@ + ulid_text(
                    bits.0,
                    bits.1,
                ) && (match prior {
                    Some(c) => bumped(c, tally.food@, card),
                    None => card.ulid@ == ulid_text(bits.0, bits.1) && bumped_zero(
                        tally.food@,
                        card,
                    ),
                })
                &&& card.wf()
            },
            Err(TallyError::InvalidSession) => tally.correct && ulid_parse(tally.ulid@) is None,
            Err(TallyError::SessionExpired) => false,
            Err(TallyError::MissingParam) => false,
        },
{
    if !tally.correct {
        return Ok(None);
    }
    let bits = match parse_ulid(tally.ulid.as_str()) {
        None => { return Err(TallyError::InvalidSession) },
        Some(b) => b,
    };
    let canon = ulid_to_string(bits.0, bits.1);
    let key = scorecard_key(&canon);
    let base = match prior {
        Some(c) => c,
        None => Scorecard::new(canon),
    };
    let card = apply_tally(base, tally.food.as_str());
    Ok(Some((key, card)))
}

} // verus!
