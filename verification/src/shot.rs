//! The measurements of one shot, and the rules that admit them.
//!
//! A [`RawShot`] holds each field as the numeric token that was received, or
//! nothing where the field was not measured. [`validate`] reads the tokens and
//! applies the range rules; what it returns is a [`ShotMeasurement`].

use crate::decimal::{
    lemma_pow10_monotonic, lemma_scale, pow10, read_spec, Decimal, Order, Reading,
};
use vstd::prelude::*;

verus! {

/// A field of the request.
#[derive(Clone, Copy, Debug, PartialEq, Eq, Structural)]
pub enum Field {
    BallSpeed,
    VerticalLaunchAngle,
    HorizontalLaunchAngle,
    TotalSpin,
    SpinAxis,
    Backspin,
    Sidespin,
    ClubSpeed,
}

impl Field {
    /// The key under which the field travels.
    pub open spec fn spec_key(self) -> Seq<char> {
        match self {
            Field::BallSpeed => "ball_speed_meters_per_second"@,
            Field::VerticalLaunchAngle => "vertical_launch_angle_degrees"@,
            Field::HorizontalLaunchAngle => "horizontal_launch_angle_degrees"@,
            Field::TotalSpin => "total_spin_rpm"@,
            Field::SpinAxis => "spin_axis_degrees"@,
            Field::Backspin => "backspin_rpm"@,
            Field::Sidespin => "sidespin_rpm"@,
            Field::ClubSpeed => "club_speed_meters_per_second"@,
        }
    }

    /// The key under which the field travels.
    pub fn key(&self) -> (r: &'static str)
        ensures
            r@ == self.spec_key(),
    {
        match self {
            Field::BallSpeed => "ball_speed_meters_per_second",
            Field::VerticalLaunchAngle => "vertical_launch_angle_degrees",
            Field::HorizontalLaunchAngle => "horizontal_launch_angle_degrees",
            Field::TotalSpin => "total_spin_rpm",
            Field::SpinAxis => "spin_axis_degrees",
            Field::Backspin => "backspin_rpm",
            Field::Sidespin => "sidespin_rpm",
            Field::ClubSpeed => "club_speed_meters_per_second",
        }
    }
}

/// What is wrong with a field.
#[derive(Clone, Copy, Debug, PartialEq, Eq, Structural)]
pub enum Fault {
    /// A required field is absent.
    Missing,
    /// The field holds something other than a number.
    NotANumber,
    /// The field holds a number with more digits than are read: its
    /// coefficient does not fit sixty-four bits, or its exponent is beyond
    /// the limits.
    TooLong,
    /// The number is too large to be a finite measurement.
    NotFinite,
    /// The number is outside the range that the field allows.
    OutOfRange,
}

/// A request that was turned down, with the field at fault.
#[derive(Clone, Copy, Debug, PartialEq, Eq, Structural)]
pub struct ValidationError {
    pub field: Field,
    pub fault: Fault,
}

/// The fields of a request as they were received: a numeric token each, or
/// `None` where the field was not measured.
#[derive(Clone, Debug)]
pub struct RawShot {
    pub ball_speed: Option<String>,
    pub vertical_launch_angle: Option<String>,
    pub horizontal_launch_angle: Option<String>,
    pub total_spin: Option<String>,
    pub spin_axis: Option<String>,
    pub backspin: Option<String>,
    pub sidespin: Option<String>,
    pub club_speed: Option<String>,
}

/// The spin that a shot is flown with.
#[derive(Clone, Copy, Debug, PartialEq, Eq, Structural)]
pub enum SpinInput {
    /// Total spin and the tilt of its axis were measured.
    TotalAndAxis { total: Decimal, axis: Decimal },
    /// Backspin and sidespin were measured.
    Components { backspin: Decimal, sidespin: Decimal },
    /// Neither pair was measured in full: the shot is flown without spin.
    Assumed,
}

/// A shot whose fields passed [`validate`].
#[derive(Clone, Copy, Debug, PartialEq, Eq, Structural)]
pub struct ShotMeasurement {
    pub ball_speed: Decimal,
    pub vertical_launch_angle: Decimal,
    /// The measured angle, or zero where none was measured.
    pub horizontal_launch_angle: Decimal,
    pub total_spin: Option<Decimal>,
    pub spin_axis: Option<Decimal>,
    pub backspin: Option<Decimal>,
    pub sidespin: Option<Decimal>,
    pub club_speed: Option<Decimal>,
}

/// The largest finite measurement: the largest double-precision number.
pub open spec fn largest_finite() -> Decimal {
    Decimal { negative: false, mantissa: 17976931348623157, exponent: 292 }
}

/// The right angle, in degrees.
pub open spec fn right_angle() -> Decimal {
    Decimal { negative: false, mantissa: 90, exponent: 0 }
}

/// The number is no larger in magnitude than the largest finite
/// measurement.
pub open spec fn is_finite(d: Decimal) -> bool {
    d.spec_magnitude_order(largest_finite()) != Order::Greater
}

/// The angle lies within a right angle of the horizon, up or down.
pub open spec fn within_right_angle(d: Decimal) -> bool {
    d.spec_magnitude_order(right_angle()) != Order::Greater
}

/// The view of a token that may be absent.
pub open spec fn token_view(token: Option<String>) -> Option<Seq<char>> {
    match token {
        Some(s) => Some(s@),
        None => None,
    }
}

/// What a field's token gives: the number, nothing for an absent field, or
/// the fault.
pub open spec fn field_spec(token: Option<Seq<char>>, field: Field) -> Result<
    Option<Decimal>,
    ValidationError,
> {
    match token {
        None => Ok(None),
        Some(s) => match read_spec(s) {
            Reading::NotNumeric => Err(ValidationError { field, fault: Fault::NotANumber }),
            Reading::TooLong => Err(ValidationError { field, fault: Fault::TooLong }),
            Reading::Number(d) => if is_finite(d) {
                Ok(Some(d))
            } else {
                Err(ValidationError { field, fault: Fault::NotFinite })
            },
        },
    }
}

/// A required field: as [`field_spec`], with an absent field a fault.
pub open spec fn required_spec(token: Option<Seq<char>>, field: Field) -> Result<
    Decimal,
    ValidationError,
> {
    match field_spec(token, field) {
        Err(e) => Err(e),
        Ok(None) => Err(ValidationError { field, fault: Fault::Missing }),
        Ok(Some(d)) => Ok(d),
    }
}

/// The first fault among the fields, in the order in which they are
/// declared; `None` for a request that is admitted.
pub open spec fn first_fault(raw: RawShot) -> Option<ValidationError> {
    let speed = required_spec(token_view(raw.ball_speed), Field::BallSpeed);
    let vertical = required_spec(token_view(raw.vertical_launch_angle), Field::VerticalLaunchAngle);
    let horizontal = field_spec(token_view(raw.horizontal_launch_angle), Field::HorizontalLaunchAngle);
    let total = field_spec(token_view(raw.total_spin), Field::TotalSpin);
    let axis = field_spec(token_view(raw.spin_axis), Field::SpinAxis);
    let backspin = field_spec(token_view(raw.backspin), Field::Backspin);
    let sidespin = field_spec(token_view(raw.sidespin), Field::Sidespin);
    let club = field_spec(token_view(raw.club_speed), Field::ClubSpeed);
    if speed is Err {
        Some(speed->Err_0)
    } else if !speed->Ok_0.spec_is_positive() {
        Some(ValidationError { field: Field::BallSpeed, fault: Fault::OutOfRange })
    } else if vertical is Err {
        Some(vertical->Err_0)
    } else if !within_right_angle(vertical->Ok_0) {
        Some(ValidationError { field: Field::VerticalLaunchAngle, fault: Fault::OutOfRange })
    } else if horizontal is Err {
        Some(horizontal->Err_0)
    } else if total is Err {
        Some(total->Err_0)
    } else if total->Ok_0 is Some && total->Ok_0->Some_0.spec_is_negative() {
        Some(ValidationError { field: Field::TotalSpin, fault: Fault::OutOfRange })
    } else if axis is Err {
        Some(axis->Err_0)
    } else if backspin is Err {
        Some(backspin->Err_0)
    } else if sidespin is Err {
        Some(sidespin->Err_0)
    } else if club is Err {
        Some(club->Err_0)
    } else {
        None
    }
}

/// The measurement that an admitted request denotes. An absent horizontal
/// launch angle stands for zero: straight at address.
pub open spec fn measurement_of(raw: RawShot) -> ShotMeasurement {
    ShotMeasurement {
        ball_speed: required_spec(token_view(raw.ball_speed), Field::BallSpeed)->Ok_0,
        vertical_launch_angle: required_spec(
            token_view(raw.vertical_launch_angle),
            Field::VerticalLaunchAngle,
        )->Ok_0,
        horizontal_launch_angle: match field_spec(
            token_view(raw.horizontal_launch_angle),
            Field::HorizontalLaunchAngle,
        )->Ok_0 {
            Some(d) => d,
            None => Decimal { negative: false, mantissa: 0, exponent: 0 },
        },
        total_spin: field_spec(token_view(raw.total_spin), Field::TotalSpin)->Ok_0,
        spin_axis: field_spec(token_view(raw.spin_axis), Field::SpinAxis)->Ok_0,
        backspin: field_spec(token_view(raw.backspin), Field::Backspin)->Ok_0,
        sidespin: field_spec(token_view(raw.sidespin), Field::Sidespin)->Ok_0,
        club_speed: field_spec(token_view(raw.club_speed), Field::ClubSpeed)->Ok_0,
    }
}

/// What [`validate`] returns.
pub open spec fn validate_spec(raw: RawShot) -> Result<ShotMeasurement, ValidationError> {
    match first_fault(raw) {
        Some(e) => Err(e),
        None => Ok(measurement_of(raw)),
    }
}

/// A number that may be absent is finite where it is present.
pub open spec fn finite_if_present(d: Option<Decimal>) -> bool {
    match d {
        Some(x) => is_finite(x),
        None => true,
    }
}

impl ShotMeasurement {
    /// The range rules: the ball speed is above zero, the vertical launch
    /// angle within a right angle, a measured total spin not below zero, and
    /// every number finite.
    pub open spec fn wf(self) -> bool {
        &&& self.ball_speed.spec_is_positive()
        &&& is_finite(self.ball_speed)
        &&& within_right_angle(self.vertical_launch_angle)
        &&& is_finite(self.vertical_launch_angle)
        &&& is_finite(self.horizontal_launch_angle)
        &&& finite_if_present(self.total_spin)
        &&& (self.total_spin is Some ==> !self.total_spin->Some_0.spec_is_negative())
        &&& finite_if_present(self.spin_axis)
        &&& finite_if_present(self.backspin)
        &&& finite_if_present(self.sidespin)
        &&& finite_if_present(self.club_speed)
    }

    /// The spin to fly the shot with. Total spin with its axis comes first:
    /// where both pairs were measured, the components are taken from the
    /// total and the axis, not from the measured pair. A pair of which one
    /// half is absent counts as not measured.
    pub open spec fn spec_spin_input(self) -> SpinInput {
        if self.total_spin is Some && self.spin_axis is Some {
            SpinInput::TotalAndAxis {
                total: self.total_spin->Some_0,
                axis: self.spin_axis->Some_0,
            }
        } else if self.backspin is Some && self.sidespin is Some {
            SpinInput::Components {
                backspin: self.backspin->Some_0,
                sidespin: self.sidespin->Some_0,
            }
        } else {
            SpinInput::Assumed
        }
    }

    /// The spin to fly the shot with.
    pub fn spin_input(&self) -> (r: SpinInput)
        ensures
            r == self.spec_spin_input(),
    {
        match (self.total_spin, self.spin_axis, self.backspin, self.sidespin) {
            (Some(total), Some(axis), _, _) => SpinInput::TotalAndAxis { total, axis },
            (_, _, Some(backspin), Some(sidespin)) => SpinInput::Components { backspin, sidespin },
            _ => SpinInput::Assumed,
        }
    }

    /// No spin was measured in full: the spin of the result is assumed.
    pub fn spin_estimated(&self) -> (r: bool)
        ensures
            r == (self.spec_spin_input() == SpinInput::Assumed),
    {
        match self.spin_input() {
            SpinInput::Assumed => true,
            _ => false,
        }
    }
}

/// Whether the number is finite.
pub fn check_finite(d: &Decimal) -> (r: bool)
    ensures
        r == is_finite(*d),
{
    let limit = Decimal { negative: false, mantissa: 17976931348623157, exponent: 292 };
    match d.magnitude_order(&limit) {
        Order::Greater => false,
        _ => true,
    }
}

/// Whether the angle lies within a right angle of the horizon.
pub fn check_within_right_angle(d: &Decimal) -> (r: bool)
    ensures
        r == within_right_angle(*d),
{
    let limit = Decimal { negative: false, mantissa: 90, exponent: 0 };
    match d.magnitude_order(&limit) {
        Order::Greater => false,
        _ => true,
    }
}

/// Reads the token of one field.
pub fn read_field(token: &Option<String>, field: Field) -> (r: Result<
    Option<Decimal>,
    ValidationError,
>)
    ensures
        r == field_spec(token_view(*token), field),
{
    match token {
        None => Ok(None),
        Some(s) => match Decimal::read(s.as_str()) {
            Reading::NotNumeric => Err(ValidationError { field, fault: Fault::NotANumber }),
            Reading::TooLong => Err(ValidationError { field, fault: Fault::TooLong }),
            Reading::Number(d) => if check_finite(&d) {
                Ok(Some(d))
            } else {
                Err(ValidationError { field, fault: Fault::NotFinite })
            },
        },
    }
}

/// Reads the token of a field that must be present.
pub fn read_required(token: &Option<String>, field: Field) -> (r: Result<Decimal, ValidationError>)
    ensures
        r == required_spec(token_view(*token), field),
{
    match read_field(token, field) {
        Err(e) => Err(e),
        Ok(None) => Err(ValidationError { field, fault: Fault::Missing }),
        Ok(Some(d)) => Ok(d),
    }
}

/// Admits a request or names the first field at fault.
///
/// The ball speed and the vertical launch angle must be present. Every field
/// that is present must hold a finite number. The ball speed must be above
/// zero, the vertical launch angle within a right angle of the horizon, and
/// the total spin not below zero. The fields are judged in the order in which
/// [`RawShot`] declares them.
pub fn validate(raw: &RawShot) -> (r: Result<ShotMeasurement, ValidationError>)
    ensures
        r == validate_spec(*raw),
        r is Ok ==> r->Ok_0.wf(),
{
    let ball_speed = match read_required(&raw.ball_speed, Field::BallSpeed) {
        Err(e) => { return Err(e); },
        Ok(d) => d,
    };
    if !ball_speed.is_positive() {
        return Err(ValidationError { field: Field::BallSpeed, fault: Fault::OutOfRange });
    }
    let vertical_launch_angle = match read_required(
        &raw.vertical_launch_angle,
        Field::VerticalLaunchAngle,
    ) {
        Err(e) => { return Err(e); },
        Ok(d) => d,
    };
    if !check_within_right_angle(&vertical_launch_angle) {
        return Err(
            ValidationError { field: Field::VerticalLaunchAngle, fault: Fault::OutOfRange },
        );
    }
    let horizontal_launch_angle = match read_field(
        &raw.horizontal_launch_angle,
        Field::HorizontalLaunchAngle,
    ) {
        Err(e) => { return Err(e); },
        Ok(Some(d)) => d,
        Ok(None) => Decimal::zero(),
    };
    let total_spin = match read_field(&raw.total_spin, Field::TotalSpin) {
        Err(e) => { return Err(e); },
        Ok(d) => d,
    };
    match total_spin {
        Some(t) => {
            if t.is_negative() {
                return Err(ValidationError { field: Field::TotalSpin, fault: Fault::OutOfRange });
            }
        },
        None => {},
    }
    let spin_axis = match read_field(&raw.spin_axis, Field::SpinAxis) {
        Err(e) => { return Err(e); },
        Ok(d) => d,
    };
    let backspin = match read_field(&raw.backspin, Field::Backspin) {
        Err(e) => { return Err(e); },
        Ok(d) => d,
    };
    let sidespin = match read_field(&raw.sidespin, Field::Sidespin) {
        Err(e) => { return Err(e); },
        Ok(d) => d,
    };
    let club_speed = match read_field(&raw.club_speed, Field::ClubSpeed) {
        Err(e) => { return Err(e); },
        Ok(d) => d,
    };
    proof {
        lemma_zero_is_finite();
    }
    Ok(
        ShotMeasurement {
            ball_speed,
            vertical_launch_angle,
            horizontal_launch_angle,
            total_spin,
            spin_axis,
            backspin,
            sidespin,
            club_speed,
        },
    )
}

/// Zero is finite.
pub proof fn lemma_zero_is_finite()
    ensures
        is_finite(Decimal { negative: false, mantissa: 0, exponent: 0 }),
{
    let z = Decimal { negative: false, mantissa: 0, exponent: 0 };
    let base = z.common_base(largest_finite());
    lemma_pow10_monotonic(0, (z.exponent - base) as nat);
    lemma_pow10_monotonic(0, (largest_finite().exponent - base) as nat);
    lemma_scale(0, pow10((z.exponent - base) as nat) as int);
    lemma_scale(17976931348623157, pow10((largest_finite().exponent - base) as nat) as int);
}

/// A request that is admitted obeys the range rules, and a request with a
/// fault is never admitted.
pub proof fn lemma_admitted_is_well_formed(raw: RawShot)
    ensures
        validate_spec(raw) is Ok ==> validate_spec(raw)->Ok_0.wf(),
        validate_spec(raw) is Ok <==> first_fault(raw) is None,
{
    lemma_zero_is_finite();
}

} // verus!
