//! The request and the response as JSON text.

use crate::decimal::Decimal;
use crate::engine::{json_node_text, json_quoted, node_text, quote_json};
use crate::outcome::{DerivedShotValues, TrajectorySample};
use crate::benchmark::Standing;
use crate::decimal::{digits_text, push_digits};
use crate::request::{member_text, push_member};
use crate::shot::{token_view, Field, RawShot};
use vstd::prelude::*;
use vstd::string::*;

verus! {

/// The JSON Pointer of a field of the request: the key at the top of the
/// document.
pub open spec fn request_pointer_text(field: Field) -> Seq<char> {
    "/"@ + field.spec_key()
}

/// The JSON Pointer of a field of the request.
pub fn request_pointer(field: Field) -> (r: String)
    ensures
        r@ == request_pointer_text(field),
{
    let mut out = String::new();
    out.append("/");
    out.append(field.key());
    assert(out@ =~= request_pointer_text(field));
    out
}

/// A node of the request as a token: a key that is absent and a key that
/// holds `null` both stand for a field that was not measured.
pub open spec fn measured(node: Option<Seq<char>>) -> Option<Seq<char>> {
    match node {
        None => None,
        Some(s) => if s == "null"@ {
            None
        } else {
            Some(s)
        },
    }
}

/// The token of a field of the request.
pub fn read_token(doc: &serde_json::Value, field: Field) -> (r: Option<String>)
    ensures
        token_view(r) == measured(json_node_text(*doc, request_pointer_text(field))),
{
    let pointer = request_pointer(field);
    match node_text(doc, pointer.as_str()) {
        None => None,
        Some(s) => {
            let null = String::from_str("null");
            if s == null {
                None
            } else {
                Some(s)
            }
        },
    }
}

/// The JSON Pointer of the flag that asks for a strict calculation.
pub open spec fn strict_pointer() -> Seq<char> {
    "/strict"@
}

/// The JSON Pointer of the flag that asks for the flight samples.
pub open spec fn trajectory_pointer() -> Seq<char> {
    "/trajectory_enabled"@
}

/// The flag under `pointer` is set: the document holds `true` there.
pub open spec fn flag_set(doc: serde_json::Value, pointer: Seq<char>) -> bool {
    json_node_text(doc, pointer) == Some("true"@)
}

/// Whether the flag under `pointer` is set.
pub fn read_flag(doc: &serde_json::Value, pointer: &str) -> (r: bool)
    ensures
        r == flag_set(*doc, pointer@),
{
    match node_text(doc, pointer) {
        None => false,
        Some(s) => {
            let yes = String::from_str("true");
            s == yes
        },
    }
}

/// The shot holds what the document holds: for each field the token under
/// its key.
pub open spec fn request_reads(doc: serde_json::Value, raw: RawShot) -> bool {
    &&& token_view(raw.ball_speed) == measured(
        json_node_text(doc, request_pointer_text(Field::BallSpeed)),
    )
    &&& token_view(raw.vertical_launch_angle) == measured(
        json_node_text(doc, request_pointer_text(Field::VerticalLaunchAngle)),
    )
    &&& token_view(raw.horizontal_launch_angle) == measured(
        json_node_text(doc, request_pointer_text(Field::HorizontalLaunchAngle)),
    )
    &&& token_view(raw.total_spin) == measured(
        json_node_text(doc, request_pointer_text(Field::TotalSpin)),
    )
    &&& token_view(raw.spin_axis) == measured(
        json_node_text(doc, request_pointer_text(Field::SpinAxis)),
    )
    &&& token_view(raw.backspin) == measured(
        json_node_text(doc, request_pointer_text(Field::Backspin)),
    )
    &&& token_view(raw.sidespin) == measured(
        json_node_text(doc, request_pointer_text(Field::Sidespin)),
    )
    &&& token_view(raw.club_speed) == measured(
        json_node_text(doc, request_pointer_text(Field::ClubSpeed)),
    )
}

/// Takes the fields of a shot from a request. Keys that are no field of a
/// shot are passed over.
pub fn read_request(doc: &serde_json::Value) -> (r: RawShot)
    ensures
        request_reads(*doc, r),
{
    RawShot {
        ball_speed: read_token(doc, Field::BallSpeed),
        vertical_launch_angle: read_token(doc, Field::VerticalLaunchAngle),
        horizontal_launch_angle: read_token(doc, Field::HorizontalLaunchAngle),
        total_spin: read_token(doc, Field::TotalSpin),
        spin_axis: read_token(doc, Field::SpinAxis),
        backspin: read_token(doc, Field::Backspin),
        sidespin: read_token(doc, Field::Sidespin),
        club_speed: read_token(doc, Field::ClubSpeed),
    }
}

/// A member of the response that holds a string: a comma, the key in quotes,
/// a colon and the string as JSON.
pub open spec fn string_member_text(key: Seq<char>, value: Seq<char>) -> Seq<char> {
    ",\""@ + key + "\":"@ + json_quoted(value)
}

/// A member of the response that holds a mark: a comma, the key in quotes, a
/// colon and `true` or `false`.
pub open spec fn flag_member_text(key: Seq<char>, value: bool) -> Seq<char> {
    ",\""@ + key + "\":"@ + (if value {
        "true"@
    } else {
        "false"@
    })
}

/// A member of the response that holds a percentile: a comma, the key in
/// quotes, a colon and the percentile in digits.
pub open spec fn percentile_member_text(key: Seq<char>, percentile: u8) -> Seq<char> {
    ",\""@ + key + "\":"@ + digits_text(percentile as nat)
}

/// The members of the response that say where the shot stands in a cohort;
/// nothing where it was compared with none.
pub open spec fn standing_text(standing: Option<Standing>) -> Seq<char> {
    match standing {
        Some(s) => percentile_member_text("carry_distance_percentile"@, s.carry_distance)
            + percentile_member_text("club_speed_percentile"@, s.club_speed)
            + percentile_member_text("smash_factor_percentile"@, s.smash_factor),
        None => Seq::<char>::empty(),
    }
}

/// A flight sample as a JSON object.
pub open spec fn sample_text(s: TrajectorySample) -> Seq<char> {
    "{\"t\":"@ + s.t.text() + member_text("x"@, s.x) + member_text("y"@, s.y)
        + member_text("z"@, s.z) + member_text("vx"@, s.vx) + member_text("vy"@, s.vy)
        + member_text("vz"@, s.vz) + "}"@
}

/// The first `n` flight samples as the elements of a JSON array.
pub open spec fn samples_text(samples: Seq<TrajectorySample>, n: int) -> Seq<char>
    decreases n,
{
    if n <= 0 {
        Seq::<char>::empty()
    } else if n == 1 {
        sample_text(samples[0])
    } else {
        samples_text(samples, n - 1) + ","@ + sample_text(samples[n - 1])
    }
}

/// The member of the response that holds the flight samples; nothing where
/// they were not asked for.
pub open spec fn trajectory_text(d: DerivedShotValues, with_samples: bool) -> Seq<char> {
    if with_samples {
        ",\"trajectory\":["@ + samples_text(d.samples@, d.samples@.len() as int) + "]"@
    } else {
        Seq::<char>::empty()
    }
}

/// The opening of the response and the members that hold its numbers.
pub open spec fn numbers_text(d: DerivedShotValues) -> Seq<char> {
    "{\"carry_distance_meters\":"@ + d.carry_distance.text() + member_text(
        "total_distance_meters"@,
        d.total_distance,
    ) + member_text("offline_distance_meters"@, d.offline_distance) + member_text(
        "peak_height_meters"@,
        d.apex_height,
    ) + member_text("hang_time_seconds"@, d.flight_time) + member_text(
        "backspin_rpm"@,
        d.backspin,
    ) + member_text("sidespin_rpm"@, d.sidespin) + member_text("total_spin_rpm"@, d.total_spin)
        + member_text("spin_axis_degrees"@, d.spin_axis) + member_text(
        "club_speed_meters_per_second"@,
        d.club_speed,
    ) + member_text("smash_factor"@, d.smash_factor)
}

/// The members of the response that hold the name, the rank and the colour
/// of the shot, and the three marks.
pub open spec fn labels_text(d: DerivedShotValues) -> Seq<char> {
    string_member_text("shot_name"@, d.shot_name@) + string_member_text(
        "shot_rank"@,
        d.shot_rank@,
    ) + string_member_text("shot_color_rgb"@, d.shot_color@) + flag_member_text(
        "spin_estimated"@,
        d.spin_estimated,
    ) + flag_member_text("club_speed_estimated"@, d.club_speed_estimated) + flag_member_text(
        "smash_factor_suspect"@,
        d.smash_suspect,
    )
}

/// The response for the derived values of a shot: one JSON object with the
/// numbers, the labels and marks, the standing in a cohort where the shot
/// was compared with one, and the flight samples where they were asked for.
pub open spec fn response_text(
    d: DerivedShotValues,
    with_samples: bool,
    standing: Option<Standing>,
) -> Seq<char> {
    numbers_text(d) + labels_text(d) + standing_text(standing) + trajectory_text(d, with_samples)
        + "}"@
}

/// Appends a member that holds a string.
pub fn push_string(out: &mut String, key: &str, value: &str)
    ensures
        final(out)@ == old(out)@ + string_member_text(key@, value@),
{
    out.append(",\"");
    out.append(key);
    out.append("\":");
    let quoted = quote_json(value);
    out.append(quoted.as_str());
    assert(final(out)@ =~= old(out)@ + string_member_text(key@, value@));
}

/// Appends a member that holds a mark.
pub fn push_flag(out: &mut String, key: &str, value: bool)
    ensures
        final(out)@ == old(out)@ + flag_member_text(key@, value),
{
    out.append(",\"");
    out.append(key);
    out.append("\":");
    if value {
        out.append("true");
    } else {
        out.append("false");
    }
    assert(final(out)@ =~= old(out)@ + flag_member_text(key@, value));
}

/// Appends a member that holds a percentile.
pub fn push_percentile(out: &mut String, key: &str, percentile: u8)
    ensures
        final(out)@ == old(out)@ + percentile_member_text(key@, percentile),
{
    out.append(",\"");
    out.append(key);
    out.append("\":");
    push_digits(out, percentile as u64);
    assert(final(out)@ =~= old(out)@ + percentile_member_text(key@, percentile));
}

/// Appends a flight sample.
pub fn push_sample(out: &mut String, s: &TrajectorySample)
    ensures
        final(out)@ == old(out)@ + sample_text(*s),
{
    out.append("{\"t\":");
    let time = s.t.render();
    out.append(time.as_str());
    push_member(out, "x", &s.x);
    push_member(out, "y", &s.y);
    push_member(out, "z", &s.z);
    push_member(out, "vx", &s.vx);
    push_member(out, "vy", &s.vy);
    push_member(out, "vz", &s.vz);
    out.append("}");
    assert(final(out)@ =~= old(out)@ + sample_text(*s));
}

/// Appends the flight samples as the elements of a JSON array.
pub fn push_samples(out: &mut String, samples: &Vec<TrajectorySample>)
    ensures
        final(out)@ == old(out)@ + samples_text(samples@, samples@.len() as int),
{
    let n = samples.len();
    let mut i: usize = 0;
    while i < n
        invariant
            n == samples@.len(),
            i <= n,
            out@ == old(out)@ + samples_text(samples@, i as int),
        decreases n - i,
    {
        let ghost before = out@;
        if i > 0 {
            out.append(",");
        }
        push_sample(out, &samples[i]);
        assert(out@ =~= old(out)@ + samples_text(samples@, i + 1));
        i = i + 1;
    }
}

/// Appends the opening of the response and the members that hold its
/// numbers.
pub fn push_numbers(out: &mut String, d: &DerivedShotValues)
    ensures
        final(out)@ == old(out)@ + numbers_text(*d),
{
    out.append("{\"carry_distance_meters\":");
    let carry = d.carry_distance.render();
    out.append(carry.as_str());
    push_member(out, "total_distance_meters", &d.total_distance);
    push_member(out, "offline_distance_meters", &d.offline_distance);
    push_member(out, "peak_height_meters", &d.apex_height);
    push_member(out, "hang_time_seconds", &d.flight_time);
    push_member(out, "backspin_rpm", &d.backspin);
    push_member(out, "sidespin_rpm", &d.sidespin);
    push_member(out, "total_spin_rpm", &d.total_spin);
    push_member(out, "spin_axis_degrees", &d.spin_axis);
    push_member(out, "club_speed_meters_per_second", &d.club_speed);
    push_member(out, "smash_factor", &d.smash_factor);
    assert(final(out)@ =~= old(out)@ + numbers_text(*d));
}

/// Appends the members that hold the labels and the marks.
pub fn push_labels(out: &mut String, d: &DerivedShotValues)
    ensures
        final(out)@ == old(out)@ + labels_text(*d),
{
    push_string(out, "shot_name", d.shot_name.as_str());
    push_string(out, "shot_rank", d.shot_rank.as_str());
    push_string(out, "shot_color_rgb", d.shot_color.as_str());
    push_flag(out, "spin_estimated", d.spin_estimated);
    push_flag(out, "club_speed_estimated", d.club_speed_estimated);
    push_flag(out, "smash_factor_suspect", d.smash_suspect);
    assert(final(out)@ =~= old(out)@ + labels_text(*d));
}

/// Appends the members that say where the shot stands in a cohort.
pub fn push_standing(out: &mut String, standing: Option<Standing>)
    ensures
        final(out)@ == old(out)@ + standing_text(standing),
{
    match standing {
        Some(s) => {
            push_percentile(out, "carry_distance_percentile", s.carry_distance);
            push_percentile(out, "club_speed_percentile", s.club_speed);
            push_percentile(out, "smash_factor_percentile", s.smash_factor);
        },
        None => {},
    }
    assert(final(out)@ =~= old(out)@ + standing_text(standing));
}

/// Appends the member that holds the flight samples, where they were asked
/// for.
pub fn push_trajectory(out: &mut String, d: &DerivedShotValues, with_samples: bool)
    ensures
        final(out)@ == old(out)@ + trajectory_text(*d, with_samples),
{
    if with_samples {
        out.append(",\"trajectory\":[");
        push_samples(out, &d.samples);
        out.append("]");
    }
    assert(final(out)@ =~= old(out)@ + trajectory_text(*d, with_samples));
}

/// Writes the response for the derived values of a shot, with its standing
/// in a cohort where it was compared with one.
pub fn render_response(d: &DerivedShotValues, with_samples: bool, standing: Option<Standing>) -> (r:
    String)
    ensures
        r@ == response_text(*d, with_samples, standing),
{
    let mut out = String::new();
    push_numbers(&mut out, d);
    push_labels(&mut out, d);
    push_standing(&mut out, standing);
    push_trajectory(&mut out, d, with_samples);
    out.append("}");
    assert(out@ =~= response_text(*d, with_samples, standing));
    out
}

} // verus!
