//! Why a calculation failed, and the words for it.

use crate::outcome::PhysicsFault;
use crate::shot::{Fault, ValidationError};
use vstd::prelude::*;
use vstd::string::*;

verus! {

/// Why a calculation failed.
#[derive(Clone, Debug)]
pub enum CalcError {
    /// The request is not a JSON document.
    NotJson,
    /// The request was turned down before any flight was computed.
    Validation(ValidationError),
    /// The engine turned the request down; these are its words.
    Engine(String),
    /// The flight that the engine computed is not sound.
    Physics(PhysicsFault),
}

/// The words with which every failure message begins.
pub open spec fn failure_prefix() -> Seq<char> {
    "Calculation failed: "@
}

/// The words for a fault of a field.
pub open spec fn fault_words(fault: Fault) -> Seq<char> {
    match fault {
        Fault::Missing => " is missing"@,
        Fault::NotANumber => " is not a number"@,
        Fault::TooLong => " has more digits than are read"@,
        Fault::NotFinite => " is not finite"@,
        Fault::OutOfRange => " is out of range"@,
    }
}

/// The words for a fault of a flight.
pub open spec fn physics_words(fault: PhysicsFault) -> Seq<char> {
    match fault {
        PhysicsFault::UnreadableReply => "the reply of the engine is not JSON"@,
        PhysicsFault::TooManySamples => "the flight has too many samples"@,
        PhysicsFault::NoSamples => "the flight has no samples"@,
        PhysicsFault::Unstable(output) => output.spec_pointer()
            + " is absent or not a finite number"@,
        PhysicsFault::DisorderedSamples => "the flight samples are not in order of time"@,
        PhysicsFault::NoLanding => "the flight does not end at the ground"@,
        PhysicsFault::MisplacedLanding => "the offline distance is not where the flight ends"@,
        PhysicsFault::NegativeCarry => "the carry distance is below zero"@,
        PhysicsFault::TotalBelowCarry => "the total distance is below the carry distance"@,
        PhysicsFault::NegativeApex => "the apex is below the ground"@,
        PhysicsFault::InconsistentSpin => "backspin and sidespin do not make up the total spin"@,
        PhysicsFault::ClubSpeedChanged => "the club speed is not the one that was measured"@,
        PhysicsFault::InconsistentSmash => "the smash factor times the club speed is not the ball speed"@,
        PhysicsFault::ImplausibleSmash => "the smash factor is outside the plausible band"@,
    }
}

impl ValidationError {
    /// The key of the field at fault, then the words for the fault.
    pub open spec fn spec_description(self) -> Seq<char> {
        self.field.spec_key() + fault_words(self.fault)
    }

    /// The key of the field at fault, then the words for the fault.
    pub fn description(&self) -> (r: String)
        ensures
            r@ == self.spec_description(),
    {
        let mut out = String::new();
        out.append(self.field.key());
        out.append(
            match self.fault {
                Fault::Missing => " is missing",
                Fault::NotANumber => " is not a number",
                Fault::TooLong => " has more digits than are read",
                Fault::NotFinite => " is not finite",
                Fault::OutOfRange => " is out of range",
            },
        );
        assert(out@ =~= self.spec_description());
        out
    }
}

impl PhysicsFault {
    /// The words for the fault.
    pub fn description(&self) -> (r: String)
        ensures
            r@ == physics_words(*self),
    {
        let mut out = String::new();
        match self {
            PhysicsFault::UnreadableReply => {
                out.append("the reply of the engine is not JSON");
            },
            PhysicsFault::TooManySamples => {
                out.append("the flight has too many samples");
            },
            PhysicsFault::NoSamples => {
                out.append("the flight has no samples");
            },
            PhysicsFault::Unstable(output) => {
                out.append(output.pointer());
                out.append(" is absent or not a finite number");
            },
            PhysicsFault::DisorderedSamples => {
                out.append("the flight samples are not in order of time");
            },
            PhysicsFault::NoLanding => {
                out.append("the flight does not end at the ground");
            },
            PhysicsFault::MisplacedLanding => {
                out.append("the offline distance is not where the flight ends");
            },
            PhysicsFault::NegativeCarry => {
                out.append("the carry distance is below zero");
            },
            PhysicsFault::TotalBelowCarry => {
                out.append("the total distance is below the carry distance");
            },
            PhysicsFault::NegativeApex => {
                out.append("the apex is below the ground");
            },
            PhysicsFault::InconsistentSpin => {
                out.append("backspin and sidespin do not make up the total spin");
            },
            PhysicsFault::ClubSpeedChanged => {
                out.append("the club speed is not the one that was measured");
            },
            PhysicsFault::InconsistentSmash => {
                out.append("the smash factor times the club speed is not the ball speed");
            },
            PhysicsFault::ImplausibleSmash => {
                out.append("the smash factor is outside the plausible band");
            },
        }
        assert(out@ =~= physics_words(*self));
        out
    }
}

/// The failure message for a description: the prefix, then the description.
pub fn failure_message(description: &str) -> (r: String)
    ensures
        r@ == failure_prefix() + description@,
{
    let mut out = String::new();
    out.append("Calculation failed: ");
    out.append(description);
    assert(out@ =~= failure_prefix() + description@);
    out
}

impl CalcError {
    /// What went wrong, in words.
    pub open spec fn spec_description(self) -> Seq<char> {
        match self {
            CalcError::NotJson => "the request is not JSON"@,
            CalcError::Validation(e) => e.spec_description(),
            CalcError::Engine(detail) => detail@,
            CalcError::Physics(fault) => physics_words(fault),
        }
    }

    /// The request itself was at fault.
    pub open spec fn spec_is_validation(self) -> bool {
        self is NotJson || self is Validation
    }

    /// The request itself was at fault.
    pub fn is_validation(&self) -> (r: bool)
        ensures
            r == self.spec_is_validation(),
    {
        match self {
            CalcError::NotJson => true,
            CalcError::Validation(_) => true,
            _ => false,
        }
    }

    /// The request was admitted, and no sound flight came of it.
    pub fn is_physics(&self) -> (r: bool)
        ensures
            r == !self.spec_is_validation(),
    {
        !self.is_validation()
    }

    /// What went wrong, in words.
    pub fn description(&self) -> (r: String)
        ensures
            r@ == self.spec_description(),
    {
        match self {
            CalcError::NotJson => {
                let mut out = String::new();
                out.append("the request is not JSON");
                assert(out@ =~= "the request is not JSON"@);
                out
            },
            CalcError::Validation(e) => e.description(),
            CalcError::Engine(detail) => detail.clone(),
            CalcError::Physics(fault) => fault.description(),
        }
    }

    /// The failure message: the prefix, then the description.
    pub fn message(&self) -> (r: String)
        ensures
            r@ == failure_prefix() + self.spec_description(),
    {
        let description = self.description();
        failure_message(description.as_str())
    }
}

} // verus!
