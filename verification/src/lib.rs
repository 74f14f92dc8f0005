//! Derived golf-shot values from launch measurements.
//!
//! One shot goes in as a [`shot::RawShot`]; what comes out is a complete
//! [`outcome::DerivedShotValues`] or a [`error::CalcError`] that names what
//! was wrong. The flight itself is computed by the `opengolfcoach` engine;
//! the library decides what the engine is asked and what of its reply is
//! accepted.

pub mod benchmark;
pub mod decimal;
pub mod engine;
pub mod error;
pub mod outcome;
pub mod request;
pub mod shot;
pub mod text;

use crate::benchmark::{compare, standing_of, Cohort, Standing};
use crate::engine::{engine_call, json_document, parse_json};
use crate::error::CalcError;
use crate::outcome::{
    assemble, assemble_fault, outcome_reads, read_outcome, sound_for, DerivedShotValues,
    PhysicsFault, RawOutcome,
};
use crate::request::render_request;
use crate::shot::{validate, validate_spec, RawShot, ShotMeasurement};
use crate::text::{
    flag_set, read_flag, read_request, render_response, request_reads, response_text,
    strict_pointer, trajectory_pointer,
};
use vstd::prelude::*;

verus! {

/// The derived values `r` are what a reply gives for a shot: the reply,
/// taken apart, has no fault, and the values are made of it.
pub open spec fn reply_gives(
    shot: ShotMeasurement,
    doc: serde_json::Value,
    strict: bool,
    d: DerivedShotValues,
) -> bool {
    exists|raw: RawOutcome|
        outcome_reads(doc, raw) && assemble_fault(shot, raw, strict) is None && d.derived_from(
            shot,
            raw,
        )
}

/// The reply, taken apart, has the fault `f`.
pub open spec fn reply_fails(
    shot: ShotMeasurement,
    doc: serde_json::Value,
    strict: bool,
    f: PhysicsFault,
) -> bool {
    exists|raw: RawOutcome| outcome_reads(doc, raw) && assemble_fault(shot, raw, strict) == Some(f)
}

/// `r` is what the engine's answer to the request for a shot comes to: the
/// engine's own refusal in its words, a fault for a reply that is no JSON, or
/// what the reply gives.
#[verifier::opaque]
pub open spec fn interprets(
    shot: ShotMeasurement,
    reply: Result<String, String>,
    strict: bool,
    r: Result<DerivedShotValues, CalcError>,
) -> bool {
    match reply {
        Err(detail) => r == Err::<DerivedShotValues, CalcError>(CalcError::Engine(detail)),
        Ok(text) => match json_document(text@) {
            None => r == Err::<DerivedShotValues, CalcError>(
                CalcError::Physics(PhysicsFault::UnreadableReply),
            ),
            Some(doc) => match r {
                Ok(d) => reply_gives(shot, doc, strict, d),
                Err(e) => e is Physics && reply_fails(shot, doc, strict, e->Physics_0),
            },
        },
    }
}

/// What the engine's answer to the request for `shot` comes to.
pub fn interpret_reply(shot: &ShotMeasurement, reply: Result<String, String>, strict: bool) -> (r:
    Result<DerivedShotValues, CalcError>)
    ensures
        interprets(*shot, reply, strict, r),
        match r {
            Ok(d) => sound_for(*shot, strict, d),
            Err(e) => !e.spec_is_validation(),
        },
{
    reveal(interprets);
    match reply {
        Err(detail) => Err(CalcError::Engine(detail)),
        Ok(text) => match parse_json(text.as_str()) {
            None => Err(CalcError::Physics(PhysicsFault::UnreadableReply)),
            Some(doc) => {
                let raw = read_outcome(&doc);
                match assemble(shot, &raw, strict) {
                    Ok(d) => Ok(d),
                    Err(fault) => Err(CalcError::Physics(fault)),
                }
            },
        },
    }
}

/// Computes the derived values of one shot from its measured fields.
///
/// A request with a fault is turned down before the engine is asked, with
/// the first field at fault. For a request that is admitted the engine
/// computes the flight, and the result is either complete and sound or a
/// failure that is no validation failure: what the engine's reply comes to.
/// With `strict`, a smash factor outside the plausible band is a failure;
/// without, it is marked suspect where the club speed was measured, and a
/// failure where it was estimated.
pub fn derive_values(raw: &RawShot, strict: bool) -> (r: Result<DerivedShotValues, CalcError>)
    ensures
        match validate_spec(*raw) {
            Err(fault) => r == Err::<DerivedShotValues, CalcError>(CalcError::Validation(fault)),
            Ok(shot) => (exists|reply: Result<String, String>| interprets(shot, reply, strict, r))
                && match r {
                Ok(d) => sound_for(shot, strict, d),
                Err(e) => !e.spec_is_validation(),
            },
        },
{
    match validate(raw) {
        Err(fault) => Err(CalcError::Validation(fault)),
        Ok(shot) => {
            let request = render_request(&shot);
            let reply = engine_call(request.as_str());
            let ghost answer = reply;
            let r = interpret_reply(&shot, reply, strict);
            assert(interprets(shot, answer, strict, r));
            r
        },
    }
}

/// Where the shot stands in the cohort it is compared with, if any.
pub open spec fn standing_in(cohort: Option<&Cohort>, d: DerivedShotValues) -> Option<Standing> {
    match cohort {
        Some(c) => Some(standing_of(*c, d)),
        None => None,
    }
}

/// `r` is `v` written out: the response for sound values with the marks that
/// the shot calls for and its standing in the cohort, or the failure as it
/// is.
pub open spec fn written(
    doc: serde_json::Value,
    shot: ShotMeasurement,
    cohort: Option<&Cohort>,
    v: Result<DerivedShotValues, CalcError>,
    r: Result<String, CalcError>,
) -> bool {
    match v {
        Ok(d) => sound_for(shot, flag_set(doc, strict_pointer()), d) && r is Ok && r->Ok_0@
            == response_text(d, flag_set(doc, trajectory_pointer()), standing_in(cohort, d)),
        Err(e) => !e.spec_is_validation() && r == Err::<String, CalcError>(e),
    }
}

/// `r` answers the request that `raw` was read from: the first fault of the
/// request, or what some reply of the engine comes to, written out.
pub open spec fn answers(
    doc: serde_json::Value,
    raw: RawShot,
    cohort: Option<&Cohort>,
    r: Result<String, CalcError>,
) -> bool {
    match validate_spec(raw) {
        Err(fault) => r == Err::<String, CalcError>(CalcError::Validation(fault)),
        Ok(shot) => exists|reply: Result<String, String>, v: Result<DerivedShotValues, CalcError>|
            #[trigger] interprets(shot, reply, flag_set(doc, strict_pointer()), v) && written(
                doc,
                shot,
                cohort,
                v,
                r,
            ),
    }
}

/// `r` answers the request in `json_input`: a failure for a text that is no
/// JSON, else the answer to the fields that the document holds.
pub open spec fn answers_text(
    json_input: Seq<char>,
    cohort: Option<&Cohort>,
    r: Result<String, CalcError>,
) -> bool {
    match json_document(json_input) {
        None => r == Err::<String, CalcError>(CalcError::NotJson),
        Some(doc) => exists|raw: RawShot| request_reads(doc, raw) && answers(doc, raw, cohort, r),
    }
}

/// Answers a request, comparing the shot with a cohort where one is given.
pub fn answer_request(json_input: &str, cohort: Option<&Cohort>) -> (r: Result<String, CalcError>)
    ensures
        answers_text(json_input@, cohort, r),
{
    match parse_json(json_input) {
        None => Err(CalcError::NotJson),
        Some(doc) => {
            let raw = read_request(&doc);
            let strict = read_flag(&doc, "/strict");
            let with_samples = read_flag(&doc, "/trajectory_enabled");
            let v = derive_values(&raw, strict);
            let ghost answer = v;
            let r = match v {
                Ok(d) => {
                    let standing = match cohort {
                        Some(c) => Some(compare(&d, c)),
                        None => None,
                    };
                    Ok(render_response(&d, with_samples, standing))
                },
                Err(e) => Err(e),
            };
            proof {
                if validate_spec(raw) is Ok {
                    let shot = validate_spec(raw)->Ok_0;
                    let reply = choose|reply: Result<String, String>|
                        interprets(shot, reply, strict, answer);
                    assert(interprets(shot, reply, flag_set(doc, strict_pointer()), answer));
                    assert(written(doc, shot, cohort, answer, r));
                }
                assert(answers(doc, raw, cohort, r));
            }
            r
        },
    }
}

/// Computes the derived values of one shot: a JSON object with the measured
/// fields in, a JSON object with the derived values out.
///
/// The request is read by its keys; keys that are no field of a shot are
/// passed over, but for two flags: `strict`, which makes a smash factor
/// outside the plausible band a failure, and `trajectory_enabled`, which
/// asks for the flight samples in the response. A text that is no JSON, or a
/// request with a fault, is turned down before the engine is asked. The
/// response is written for values that are complete and sound, or not at
/// all; a failure is passed on as it is.
pub fn calculate_derived_values(json_input: &str) -> (r: Result<String, CalcError>)
    ensures
        answers_text(json_input@, None, r),
{
    answer_request(json_input, None)
}

/// As [`calculate_derived_values`], with the shot compared with a cohort:
/// the response says at which percentile the carry distance, the club speed
/// and the smash factor stand.
pub fn calculate_benchmarked_values(json_input: &str, cohort: &Cohort) -> (r: Result<
    String,
    CalcError,
>)
    ensures
        answers_text(json_input@, Some(cohort), r),
{
    answer_request(json_input, Some(cohort))
}

} // verus!
