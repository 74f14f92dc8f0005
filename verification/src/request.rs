//! The request that is handed to the flight engine.
//!
//! The engine takes a JSON object. The library writes that object itself,
//! member by member, from a validated [`ShotMeasurement`]: the engine sees
//! the fields below and no others.

use crate::decimal::Decimal;
use crate::shot::{Field, ShotMeasurement, SpinInput};
use vstd::prelude::*;
use vstd::string::*;

verus! {

/// A member of the request: a comma, the key in quotes, a colon and the
/// number.
pub open spec fn member_text(key: Seq<char>, value: Decimal) -> Seq<char> {
    ",\""@ + key + "\":"@ + value.text()
}

/// The members that carry the spin. A shot without measured spin is flown
/// with a total spin of zero about a level axis.
pub open spec fn spin_text(spin: SpinInput) -> Seq<char> {
    match spin {
        SpinInput::TotalAndAxis { total, axis } => member_text(Field::TotalSpin.spec_key(), total)
            + member_text(Field::SpinAxis.spec_key(), axis),
        SpinInput::Components { backspin, sidespin } => member_text(
            Field::Backspin.spec_key(),
            backspin,
        ) + member_text(Field::Sidespin.spec_key(), sidespin),
        SpinInput::Assumed => member_text(
            Field::TotalSpin.spec_key(),
            Decimal { negative: false, mantissa: 0, exponent: 0 },
        ) + member_text(
            Field::SpinAxis.spec_key(),
            Decimal { negative: false, mantissa: 0, exponent: 0 },
        ),
    }
}

/// The member that carries a measured club speed; nothing where none was
/// measured.
pub open spec fn club_text(club_speed: Option<Decimal>) -> Seq<char> {
    match club_speed {
        Some(speed) => member_text(Field::ClubSpeed.spec_key(), speed),
        None => Seq::<char>::empty(),
    }
}

/// The opening of every request: it asks for the flight samples, and it
/// carries a peak height of its own so that the engine computes none. The
/// apex is taken from the samples instead.
pub open spec fn request_head() -> Seq<char> {
    "{\"trajectory_enabled\":true,\"peak_height_meters\":0"@
}

/// The request for a shot.
pub open spec fn request_text(shot: ShotMeasurement) -> Seq<char> {
    request_head() + member_text(Field::BallSpeed.spec_key(), shot.ball_speed) + member_text(
        Field::VerticalLaunchAngle.spec_key(),
        shot.vertical_launch_angle,
    ) + member_text(Field::HorizontalLaunchAngle.spec_key(), shot.horizontal_launch_angle)
        + spin_text(shot.spec_spin_input()) + club_text(shot.club_speed) + "}"@
}

/// The text is the request for some shot.
pub open spec fn is_request_text(text: Seq<char>) -> bool {
    exists|shot: ShotMeasurement| text == request_text(shot)
}

/// Appends one member.
pub fn push_member(out: &mut String, key: &str, value: &Decimal)
    ensures
        final(out)@ == old(out)@ + member_text(key@, *value),
{
    out.append(",\"");
    out.append(key);
    out.append("\":");
    let number = value.render();
    out.append(number.as_str());
    assert(final(out)@ =~= old(out)@ + member_text(key@, *value));
}

/// Writes the request for a shot.
pub fn render_request(shot: &ShotMeasurement) -> (r: String)
    ensures
        r@ == request_text(*shot),
        is_request_text(r@),
{
    let mut out = String::new();
    out.append("{\"trajectory_enabled\":true,\"peak_height_meters\":0");
    assert(out@ =~= request_head());
    push_member(&mut out, Field::BallSpeed.key(), &shot.ball_speed);
    push_member(&mut out, Field::VerticalLaunchAngle.key(), &shot.vertical_launch_angle);
    push_member(&mut out, Field::HorizontalLaunchAngle.key(), &shot.horizontal_launch_angle);
    let ghost before_spin = out@;
    match shot.spin_input() {
        SpinInput::TotalAndAxis { total, axis } => {
            push_member(&mut out, Field::TotalSpin.key(), &total);
            push_member(&mut out, Field::SpinAxis.key(), &axis);
        },
        SpinInput::Components { backspin, sidespin } => {
            push_member(&mut out, Field::Backspin.key(), &backspin);
            push_member(&mut out, Field::Sidespin.key(), &sidespin);
        },
        SpinInput::Assumed => {
            let zero = Decimal::zero();
            push_member(&mut out, Field::TotalSpin.key(), &zero);
            push_member(&mut out, Field::SpinAxis.key(), &zero);
        },
    }
    assert(out@ =~= before_spin + spin_text(shot.spec_spin_input()));
    let ghost before_club = out@;
    match shot.club_speed {
        Some(speed) => {
            push_member(&mut out, Field::ClubSpeed.key(), &speed);
        },
        None => {},
    }
    assert(out@ =~= before_club + club_text(shot.club_speed));
    out.append("}");
    assert(out@ =~= request_text(*shot));
    out
}

} // verus!
