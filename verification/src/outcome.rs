//! What the engine replied, and the derived values that are made of it.
//!
//! [`read_outcome`] takes the reply apart into tokens. [`assemble`] reads the
//! tokens as numbers and holds them to the rules of a flight: either every
//! derived value is there and sound, or the shot is turned down with the
//! first fault.

use crate::decimal::{
    digits_text, lemma_order_laws, lemma_product_fits, lemma_sign_is_order, micro_units,
    parse_spec, push_digits, to_micro_units, wide_order, wide_order_spec, Decimal, Order,
    MICRO_LIMIT,
};
use crate::engine::{json_node_string, json_node_text, node_string, node_text};
use crate::shot::{check_finite, is_finite, token_view, ShotMeasurement, SpinInput};
use vstd::prelude::*;
use vstd::string::*;

verus! {

/// A value of the reply.
#[derive(Clone, Copy, Debug, PartialEq, Eq, Structural)]
pub enum Output {
    CarryDistance,
    TotalDistance,
    OfflineDistance,
    Backspin,
    Sidespin,
    TotalSpin,
    SpinAxis,
    ClubSpeed,
    SmashFactor,
    ShotName,
    ShotRank,
    ShotColor,
    Sample,
}

impl Output {
    /// The JSON Pointer under which the reply holds the value. The shot's
    /// name, rank and colour are those of a right-handed player.
    pub open spec fn spec_pointer(self) -> Seq<char> {
        match self {
            Output::CarryDistance => "/open_golf_coach/carry_distance_meters"@,
            Output::TotalDistance => "/open_golf_coach/total_distance_meters"@,
            Output::OfflineDistance => "/open_golf_coach/offline_distance_meters"@,
            Output::Backspin => "/open_golf_coach/backspin_rpm"@,
            Output::Sidespin => "/open_golf_coach/sidespin_rpm"@,
            Output::TotalSpin => "/open_golf_coach/total_spin_rpm"@,
            Output::SpinAxis => "/open_golf_coach/spin_axis_degrees"@,
            Output::ClubSpeed => "/open_golf_coach/club_speed_meters_per_second"@,
            Output::SmashFactor => "/open_golf_coach/smash_factor"@,
            Output::ShotName => "/open_golf_coach/shot_name/right_handed"@,
            Output::ShotRank => "/open_golf_coach/shot_rank/right_handed"@,
            Output::ShotColor => "/open_golf_coach/shot_color_rgb/right_handed"@,
            Output::Sample => "/open_golf_coach/trajectory/points"@,
        }
    }

    /// The JSON Pointer under which the reply holds the value.
    pub fn pointer(&self) -> (r: &'static str)
        ensures
            r@ == self.spec_pointer(),
    {
        match self {
            Output::CarryDistance => "/open_golf_coach/carry_distance_meters",
            Output::TotalDistance => "/open_golf_coach/total_distance_meters",
            Output::OfflineDistance => "/open_golf_coach/offline_distance_meters",
            Output::Backspin => "/open_golf_coach/backspin_rpm",
            Output::Sidespin => "/open_golf_coach/sidespin_rpm",
            Output::TotalSpin => "/open_golf_coach/total_spin_rpm",
            Output::SpinAxis => "/open_golf_coach/spin_axis_degrees",
            Output::ClubSpeed => "/open_golf_coach/club_speed_meters_per_second",
            Output::SmashFactor => "/open_golf_coach/smash_factor",
            Output::ShotName => "/open_golf_coach/shot_name/right_handed",
            Output::ShotRank => "/open_golf_coach/shot_rank/right_handed",
            Output::ShotColor => "/open_golf_coach/shot_color_rgb/right_handed",
            Output::Sample => "/open_golf_coach/trajectory/points",
        }
    }
}

/// A quantity of a flight sample.
#[derive(Clone, Copy, Debug, PartialEq, Eq, Structural)]
pub enum Quantity {
    Time,
    Downrange,
    Lateral,
    Height,
    DownrangeSpeed,
    LateralSpeed,
    ClimbSpeed,
}

impl Quantity {
    /// The key of the quantity in a sample of the reply.
    pub open spec fn spec_key(self) -> Seq<char> {
        match self {
            Quantity::Time => "t"@,
            Quantity::Downrange => "x"@,
            Quantity::Lateral => "y"@,
            Quantity::Height => "z"@,
            Quantity::DownrangeSpeed => "vx"@,
            Quantity::LateralSpeed => "vy"@,
            Quantity::ClimbSpeed => "vz"@,
        }
    }

    /// The key of the quantity in a sample of the reply.
    pub fn key(&self) -> (r: &'static str)
        ensures
            r@ == self.spec_key(),
    {
        match self {
            Quantity::Time => "t",
            Quantity::Downrange => "x",
            Quantity::Lateral => "y",
            Quantity::Height => "z",
            Quantity::DownrangeSpeed => "vx",
            Quantity::LateralSpeed => "vy",
            Quantity::ClimbSpeed => "vz",
        }
    }
}

/// The JSON Pointer of a quantity of the sample at `index`.
pub open spec fn sample_pointer_text(index: nat, quantity: Quantity) -> Seq<char> {
    Output::Sample.spec_pointer() + "/"@ + digits_text(index) + "/"@ + quantity.spec_key()
}

/// The JSON Pointer of a quantity of the sample at `index`.
pub fn sample_pointer(index: usize, quantity: Quantity) -> (r: String)
    ensures
        r@ == sample_pointer_text(index as nat, quantity),
{
    let mut out = String::new();
    out.append(Output::Sample.pointer());
    out.append("/");
    push_digits(&mut out, index as u64);
    out.append("/");
    out.append(quantity.key());
    assert(out@ =~= sample_pointer_text(index as nat, quantity));
    out
}

/// The tokens of one flight sample.
#[derive(Clone, Debug)]
pub struct RawSample {
    pub t: Option<String>,
    pub x: Option<String>,
    pub y: Option<String>,
    pub z: Option<String>,
    pub vx: Option<String>,
    pub vy: Option<String>,
    pub vz: Option<String>,
}

/// The reply, taken apart: a token for each number, the characters of each
/// string, `None` for what the reply does not hold.
#[derive(Clone, Debug)]
pub struct RawOutcome {
    pub carry_distance: Option<String>,
    pub total_distance: Option<String>,
    pub offline_distance: Option<String>,
    pub backspin: Option<String>,
    pub sidespin: Option<String>,
    pub total_spin: Option<String>,
    pub spin_axis: Option<String>,
    pub club_speed: Option<String>,
    pub smash_factor: Option<String>,
    pub shot_name: Option<String>,
    pub shot_rank: Option<String>,
    pub shot_color: Option<String>,
    /// The flight samples, from the first on.
    pub samples: Vec<RawSample>,
    /// The reply holds more samples than were taken.
    pub truncated: bool,
}

/// The most flight samples that are taken from a reply.
pub const SAMPLE_LIMIT: usize = 20_000;

/// The sample holds what the document holds at `index`.
pub open spec fn sample_reads(doc: serde_json::Value, index: nat, s: RawSample) -> bool {
    &&& token_view(s.t) == json_node_text(doc, sample_pointer_text(index, Quantity::Time))
    &&& token_view(s.x) == json_node_text(doc, sample_pointer_text(index, Quantity::Downrange))
    &&& token_view(s.y) == json_node_text(doc, sample_pointer_text(index, Quantity::Lateral))
    &&& token_view(s.z) == json_node_text(doc, sample_pointer_text(index, Quantity::Height))
    &&& token_view(s.vx) == json_node_text(
        doc,
        sample_pointer_text(index, Quantity::DownrangeSpeed),
    )
    &&& token_view(s.vy) == json_node_text(doc, sample_pointer_text(index, Quantity::LateralSpeed))
    &&& token_view(s.vz) == json_node_text(doc, sample_pointer_text(index, Quantity::ClimbSpeed))
}

/// The outcome holds what the document holds: each value under its pointer,
/// and the samples from the first up to the first index that has no time, or
/// up to the limit.
#[verifier::opaque]
pub open spec fn outcome_reads(doc: serde_json::Value, r: RawOutcome) -> bool {
    &&& token_view(r.carry_distance) == json_node_text(doc, Output::CarryDistance.spec_pointer())
    &&& token_view(r.total_distance) == json_node_text(doc, Output::TotalDistance.spec_pointer())
    &&& token_view(r.offline_distance) == json_node_text(
        doc,
        Output::OfflineDistance.spec_pointer(),
    )
    &&& token_view(r.backspin) == json_node_text(doc, Output::Backspin.spec_pointer())
    &&& token_view(r.sidespin) == json_node_text(doc, Output::Sidespin.spec_pointer())
    &&& token_view(r.total_spin) == json_node_text(doc, Output::TotalSpin.spec_pointer())
    &&& token_view(r.spin_axis) == json_node_text(doc, Output::SpinAxis.spec_pointer())
    &&& token_view(r.club_speed) == json_node_text(doc, Output::ClubSpeed.spec_pointer())
    &&& token_view(r.smash_factor) == json_node_text(doc, Output::SmashFactor.spec_pointer())
    &&& token_view(r.shot_name) == json_node_string(doc, Output::ShotName.spec_pointer())
    &&& token_view(r.shot_rank) == json_node_string(doc, Output::ShotRank.spec_pointer())
    &&& token_view(r.shot_color) == json_node_string(doc, Output::ShotColor.spec_pointer())
    &&& r.samples@.len() <= SAMPLE_LIMIT
    &&& forall|i: int|
        0 <= i < r.samples@.len() ==> sample_reads(doc, i as nat, #[trigger] r.samples@[i])
            && r.samples@[i].t is Some
    &&& r.truncated ==> r.samples@.len() == SAMPLE_LIMIT
    &&& r.truncated == (json_node_text(
        doc,
        sample_pointer_text(r.samples@.len() as nat, Quantity::Time),
    ) is Some)
}

/// Takes the reply apart.
pub fn read_outcome(doc: &serde_json::Value) -> (r: RawOutcome)
    ensures
        outcome_reads(*doc, r),
{
    let mut samples: Vec<RawSample> = Vec::new();
    let mut truncated = false;
    let mut more = true;
    while more
        invariant
            more ==> !truncated,
            samples@.len() <= SAMPLE_LIMIT,
            forall|i: int|
                0 <= i < samples@.len() ==> sample_reads(*doc, i as nat, #[trigger] samples@[i])
                    && samples@[i].t is Some,
            truncated ==> samples@.len() == SAMPLE_LIMIT,
            !more ==> truncated == (json_node_text(
                *doc,
                sample_pointer_text(samples@.len() as nat, Quantity::Time),
            ) is Some),
        decreases SAMPLE_LIMIT - samples@.len() + (if more { 1int } else { 0int }),
    {
        let index = samples.len();
        let pointer = sample_pointer(index, Quantity::Time);
        let t = node_text(doc, pointer.as_str());
        assert(token_view(t) == json_node_text(
            *doc,
            sample_pointer_text(samples@.len() as nat, Quantity::Time),
        ));
        if t.is_none() {
            more = false;
        } else if index == SAMPLE_LIMIT {
            truncated = true;
            more = false;
        } else {
            let s = RawSample {
                t,
                x: node_text(doc, sample_pointer(index, Quantity::Downrange).as_str()),
                y: node_text(doc, sample_pointer(index, Quantity::Lateral).as_str()),
                z: node_text(doc, sample_pointer(index, Quantity::Height).as_str()),
                vx: node_text(doc, sample_pointer(index, Quantity::DownrangeSpeed).as_str()),
                vy: node_text(doc, sample_pointer(index, Quantity::LateralSpeed).as_str()),
                vz: node_text(doc, sample_pointer(index, Quantity::ClimbSpeed).as_str()),
            };
            samples.push(s);
        }
    }
    proof {
        reveal(outcome_reads);
    }
    RawOutcome {
        carry_distance: node_text(doc, Output::CarryDistance.pointer()),
        total_distance: node_text(doc, Output::TotalDistance.pointer()),
        offline_distance: node_text(doc, Output::OfflineDistance.pointer()),
        backspin: node_text(doc, Output::Backspin.pointer()),
        sidespin: node_text(doc, Output::Sidespin.pointer()),
        total_spin: node_text(doc, Output::TotalSpin.pointer()),
        spin_axis: node_text(doc, Output::SpinAxis.pointer()),
        club_speed: node_text(doc, Output::ClubSpeed.pointer()),
        smash_factor: node_text(doc, Output::SmashFactor.pointer()),
        shot_name: node_string(doc, Output::ShotName.pointer()),
        shot_rank: node_string(doc, Output::ShotRank.pointer()),
        shot_color: node_string(doc, Output::ShotColor.pointer()),
        samples,
        truncated,
    }
}

/// A point in flight: where the ball is, how fast it moves, and the time
/// since launch.
#[derive(Clone, Copy, Debug, PartialEq, Eq, Structural)]
pub struct TrajectorySample {
    pub t: Decimal,
    pub x: Decimal,
    pub y: Decimal,
    pub z: Decimal,
    pub vx: Decimal,
    pub vy: Decimal,
    pub vz: Decimal,
}

/// Why a flight was turned down.
#[derive(Clone, Copy, Debug, PartialEq, Eq, Structural)]
pub enum PhysicsFault {
    /// The engine's reply is not a JSON document.
    UnreadableReply,
    /// The flight has more samples than are taken from a reply.
    TooManySamples,
    /// The flight has no sample.
    NoSamples,
    /// A value is absent or is no finite number.
    Unstable(Output),
    /// The time does not rise from one sample to the next.
    DisorderedSamples,
    /// The flight does not end at the ground: the last sample is above it,
    /// or one before the last is below it.
    NoLanding,
    /// The carry distance is below zero.
    NegativeCarry,
    /// The total distance is below the carry distance.
    TotalBelowCarry,
    /// The offline distance is not the lateral position of the last sample.
    MisplacedLanding,
    /// The apex is below the ground.
    NegativeApex,
    /// Backspin and sidespin do not make up the total spin.
    InconsistentSpin,
    /// The club speed of the reply is not the club speed that was measured.
    ClubSpeedChanged,
    /// The smash factor times the club speed is not the ball speed.
    InconsistentSmash,
    /// The smash factor is outside the plausible band, which is accepted
    /// neither in a strict calculation nor with an estimated club speed.
    ImplausibleSmash,
}

/// The derived values of one shot.
#[derive(Clone, Debug)]
pub struct DerivedShotValues {
    pub carry_distance: Decimal,
    pub total_distance: Decimal,
    pub offline_distance: Decimal,
    pub apex_height: Decimal,
    pub flight_time: Decimal,
    pub backspin: Decimal,
    pub sidespin: Decimal,
    pub total_spin: Decimal,
    pub spin_axis: Decimal,
    pub club_speed: Decimal,
    pub smash_factor: Decimal,
    pub shot_name: String,
    pub shot_rank: String,
    pub shot_color: String,
    /// No spin was measured in full: the shot was flown without spin.
    pub spin_estimated: bool,
    /// No club speed was measured: the club speed is the engine's estimate.
    pub club_speed_estimated: bool,
    /// The smash factor is outside the plausible band.
    pub smash_suspect: bool,
    pub samples: Vec<TrajectorySample>,
}

/// The place of a rank among the ranks, from the best on: `S+`, `S`, `A`,
/// `B`, `C`, `D`, `E`. `None` for a text that is no rank, as for a shot that
/// is not ranked.
pub open spec fn rank_order_spec(rank: Seq<char>) -> Option<u8> {
    if rank == "S+"@ {
        Some(0u8)
    } else if rank == "S"@ {
        Some(1u8)
    } else if rank == "A"@ {
        Some(2u8)
    } else if rank == "B"@ {
        Some(3u8)
    } else if rank == "C"@ {
        Some(4u8)
    } else if rank == "D"@ {
        Some(5u8)
    } else if rank == "E"@ {
        Some(6u8)
    } else {
        None
    }
}

/// The place of a rank among the ranks, from the best on.
pub fn rank_order(rank: &String) -> (r: Option<u8>)
    ensures
        r == rank_order_spec(rank@),
{
    if *rank == String::from_str("S+") {
        Some(0)
    } else if *rank == String::from_str("S") {
        Some(1)
    } else if *rank == String::from_str("A") {
        Some(2)
    } else if *rank == String::from_str("B") {
        Some(3)
    } else if *rank == String::from_str("C") {
        Some(4)
    } else if *rank == String::from_str("D") {
        Some(5)
    } else if *rank == String::from_str("E") {
        Some(6)
    } else {
        None
    }
}

/// The lower end of the plausible band of the smash factor: 1.0.
pub open spec fn band_low() -> Decimal {
    Decimal { negative: false, mantissa: 10, exponent: -1i32 }
}

/// The upper end of the plausible band of the smash factor: 1.6.
pub open spec fn band_high() -> Decimal {
    Decimal { negative: false, mantissa: 16, exponent: -1i32 }
}

/// The smash factor lies in the plausible band, ends included.
pub open spec fn in_band(smash: Decimal) -> bool {
    band_low().spec_le(smash) && smash.spec_le(band_high())
}

/// Whether the smash factor lies in the plausible band.
pub fn check_in_band(smash: &Decimal) -> (r: bool)
    ensures
        r == in_band(*smash),
{
    let low = Decimal { negative: false, mantissa: 10, exponent: -1 };
    let high = Decimal { negative: false, mantissa: 16, exponent: -1 };
    low.le(smash) && smash.le(&high)
}

/// `a` is `b` to within one part in a thousand million.
pub open spec fn close_to(a: Decimal, b: Decimal) -> bool {
    &&& a.negative == b.negative || (a.mantissa == 0 && b.mantissa == 0)
    &&& wide_order_spec(
        b.mantissa as nat * 999_999_999,
        b.exponent - 9,
        a.mantissa as nat,
        a.exponent as int,
    ) != Order::Greater
    &&& wide_order_spec(
        a.mantissa as nat,
        a.exponent as int,
        b.mantissa as nat * 1_000_000_001,
        b.exponent - 9,
    ) != Order::Greater
}

/// Whether `a` is `b` to within one part in a thousand million.
pub fn check_close_to(a: &Decimal, b: &Decimal) -> (r: bool)
    ensures
        r == close_to(*a, *b),
{
    if a.negative != b.negative && !(a.mantissa == 0 && b.mantissa == 0) {
        return false;
    }
    proof {
        lemma_product_fits(b.mantissa as int, 999_999_999);
        lemma_product_fits(b.mantissa as int, 1_000_000_001);
    }
    let low: u128 = b.mantissa as u128 * 999_999_999;
    let high: u128 = b.mantissa as u128 * 1_000_000_001;
    let unit: i64 = b.exponent as i64 - 9;
    match wide_order(low, unit, a.mantissa as u128, a.exponent as i64) {
        Order::Greater => false,
        _ => match wide_order(a.mantissa as u128, a.exponent as i64, high, unit) {
            Order::Greater => false,
            _ => true,
        },
    }
}

/// The club speed of the reply is the measured one, where one was measured.
pub open spec fn club_speed_kept(measured: Option<Decimal>, club: Decimal) -> bool {
    match measured {
        Some(m) => close_to(club, m),
        None => true,
    }
}

/// The slack that [`spin_consistent`] allows for a total spin of `t`
/// millionths: one part in a thousand million of its square, and what
/// rounding the three spins down to millionths can come to.
pub open spec fn spin_slack(t: int) -> int {
    t * t / 1_000_000_000 + 8 * t + 16
}

/// Backspin and sidespin make up the total spin: with each spin taken in
/// millionths of a revolution per minute, rounded down, the squares of
/// backspin and sidespin add up to the square of the total spin, to within
/// [`spin_slack`]. A spin of a million million revolutions per minute or
/// more is not consistent with anything.
pub open spec fn spin_consistent(backspin: Decimal, sidespin: Decimal, total: Decimal) -> bool {
    let b = micro_units(backspin);
    let s = micro_units(sidespin);
    let t = micro_units(total);
    &&& b is Some
    &&& s is Some
    &&& t is Some
    &&& b->Some_0 * b->Some_0 + s->Some_0 * s->Some_0 <= t->Some_0 * t->Some_0 + spin_slack(
        t->Some_0,
    )
    &&& t->Some_0 * t->Some_0 <= b->Some_0 * b->Some_0 + s->Some_0 * s->Some_0 + spin_slack(
        t->Some_0,
    )
}

/// The square of a number of millionths fits a hundred and twenty-eight
/// bits with room to spare.
pub proof fn lemma_square_fits(x: int)
    requires
        0 <= x < MICRO_LIMIT,
    ensures
        0 <= x * x <= 1_000_000_000_000_000_000_000_000_000_000_000_000,
{
    assert(0 <= x * x <= 1_000_000_000_000_000_000 * 1_000_000_000_000_000_000)
        by (nonlinear_arith)
        requires
            0 <= x < 1_000_000_000_000_000_000,
    ;
}

/// Whether backspin and sidespin make up the total spin.
pub fn check_spin_consistent(backspin: &Decimal, sidespin: &Decimal, total: &Decimal) -> (r: bool)
    ensures
        r == spin_consistent(*backspin, *sidespin, *total),
{
    match (to_micro_units(backspin), to_micro_units(sidespin), to_micro_units(total)) {
        (Some(b), Some(s), Some(t)) => {
            proof {
                lemma_square_fits(b as int);
                lemma_square_fits(s as int);
                lemma_square_fits(t as int);
            }
            let bb: u128 = b as u128 * b as u128;
            let ss: u128 = s as u128 * s as u128;
            let tt: u128 = t as u128 * t as u128;
            let slack: u128 = tt / 1_000_000_000 + 8 * t as u128 + 16;
            bb + ss <= tt + slack && tt <= bb + ss + slack
        },
        _ => false,
    }
}

/// The smash factor is the ball speed over the club speed: the smash factor
/// times the club speed is the ball speed, to within one part in a thousand
/// million.
pub open spec fn smash_consistent(smash: Decimal, club: Decimal, ball: Decimal) -> bool {
    let product = smash.mantissa as nat * club.mantissa as nat;
    let exponent = smash.exponent + club.exponent;
    &&& smash.negative == club.negative
    &&& !ball.negative
    &&& wide_order_spec(
        ball.mantissa as nat * 999_999_999,
        ball.exponent - 9,
        product,
        exponent,
    ) != Order::Greater
    &&& wide_order_spec(
        product,
        exponent,
        ball.mantissa as nat * 1_000_000_001,
        ball.exponent - 9,
    ) != Order::Greater
}

/// Whether the smash factor is the ball speed over the club speed.
pub fn check_smash_consistent(smash: &Decimal, club: &Decimal, ball: &Decimal) -> (r: bool)
    ensures
        r == smash_consistent(*smash, *club, *ball),
{
    if smash.negative != club.negative || ball.negative {
        return false;
    }
    proof {
        lemma_product_fits(smash.mantissa as int, club.mantissa as int);
        lemma_product_fits(ball.mantissa as int, 999_999_999);
        lemma_product_fits(ball.mantissa as int, 1_000_000_001);
    }
    let product: u128 = smash.mantissa as u128 * club.mantissa as u128;
    let exponent: i64 = smash.exponent as i64 + club.exponent as i64;
    let low: u128 = ball.mantissa as u128 * 999_999_999;
    let high: u128 = ball.mantissa as u128 * 1_000_000_001;
    let unit: i64 = ball.exponent as i64 - 9;
    match wide_order(low, unit, product, exponent) {
        Order::Greater => false,
        _ => match wide_order(product, exponent, high, unit) {
            Order::Greater => false,
            _ => true,
        },
    }
}

/// The finite number that a token denotes, if it denotes one.
pub open spec fn number_of(token: Option<Seq<char>>) -> Option<Decimal> {
    match token {
        None => None,
        Some(s) => match parse_spec(s) {
            None => None,
            Some(d) => if is_finite(d) {
                Some(d)
            } else {
                None
            },
        },
    }
}

/// Reads a token as a finite number.
pub fn read_number(token: &Option<String>) -> (r: Option<Decimal>)
    ensures
        r == number_of(token_view(*token)),
{
    match token {
        None => None,
        Some(s) => match Decimal::parse(s.as_str()) {
            None => None,
            Some(d) => if check_finite(&d) {
                Some(d)
            } else {
                None
            },
        },
    }
}

/// The sample that seven tokens denote, if each denotes a finite number.
pub open spec fn sample_of(raw: RawSample) -> Option<TrajectorySample> {
    let t = number_of(token_view(raw.t));
    let x = number_of(token_view(raw.x));
    let y = number_of(token_view(raw.y));
    let z = number_of(token_view(raw.z));
    let vx = number_of(token_view(raw.vx));
    let vy = number_of(token_view(raw.vy));
    let vz = number_of(token_view(raw.vz));
    if t is Some && x is Some && y is Some && z is Some && vx is Some && vy is Some && vz is Some {
        Some(
            TrajectorySample {
                t: t->Some_0,
                x: x->Some_0,
                y: y->Some_0,
                z: z->Some_0,
                vx: vx->Some_0,
                vy: vy->Some_0,
                vz: vz->Some_0,
            },
        )
    } else {
        None
    }
}

/// Reads the seven tokens of a sample.
pub fn read_sample(raw: &RawSample) -> (r: Option<TrajectorySample>)
    ensures
        r == sample_of(*raw),
{
    match (
        read_number(&raw.t),
        read_number(&raw.x),
        read_number(&raw.y),
        read_number(&raw.z),
        read_number(&raw.vx),
        read_number(&raw.vy),
        read_number(&raw.vz),
    ) {
        (Some(t), Some(x), Some(y), Some(z), Some(vx), Some(vy), Some(vz)) => Some(
            TrajectorySample { t, x, y, z, vx, vy, vz },
        ),
        _ => None,
    }
}

/// The flight that the samples denote, where each of them denotes one.
pub open spec fn flight_of(raw: Seq<RawSample>) -> Seq<TrajectorySample> {
    Seq::new(raw.len(), |i: int| sample_of(raw[i])->Some_0)
}

/// The height of the first among the highest of the first `n` samples.
pub open spec fn highest(samples: Seq<TrajectorySample>, n: int) -> Decimal
    decreases n,
{
    if n <= 1 {
        samples[0].z
    } else {
        let before = highest(samples, n - 1);
        if before.spec_lt(samples[n - 1].z) {
            samples[n - 1].z
        } else {
            before
        }
    }
}

/// The time rises from each sample to the next.
pub open spec fn time_rises(samples: Seq<TrajectorySample>) -> bool {
    forall|i: int| 0 <= i < samples.len() - 1 ==> (#[trigger] samples[i]).t.spec_lt(samples[i + 1].t)
}

/// The flight ends at ground contact: the last sample is at or below the
/// ground, and none before it is below.
pub open spec fn lands_at_end(samples: Seq<TrajectorySample>) -> bool {
    &&& samples.len() >= 1
    &&& !samples.last().z.spec_is_positive()
    &&& forall|i: int| 0 <= i < samples.len() - 1 ==> !(#[trigger] samples[i]).z.spec_is_negative()
}

/// `apex` is the height of one of the samples, and none is higher.
pub open spec fn is_apex(samples: Seq<TrajectorySample>, apex: Decimal) -> bool {
    &&& exists|i: int| 0 <= i < samples.len() && (#[trigger] samples[i]).z == apex
    &&& forall|i: int| 0 <= i < samples.len() ==> (#[trigger] samples[i]).z.spec_le(apex)
}

/// [`highest`] gives the apex of the samples it is taken over.
pub proof fn lemma_highest_is_apex(samples: Seq<TrajectorySample>, n: int)
    requires
        1 <= n <= samples.len(),
    ensures
        is_apex(samples.take(n), highest(samples, n)),
    decreases n,
{
    let part = samples.take(n);
    let top = highest(samples, n);
    if n == 1 {
        assert(part[0].z == top);
        lemma_order_laws(top, top, top);
    } else {
        lemma_highest_is_apex(samples, n - 1);
        let before = highest(samples, n - 1);
        let earlier = samples.take(n - 1);
        let last = samples[n - 1].z;
        lemma_order_laws(before, last, last);
        lemma_order_laws(last, before, before);
        let w = choose|i: int| 0 <= i < earlier.len() && (#[trigger] earlier[i]).z == before;
        if before.spec_lt(last) {
            assert(part[n - 1].z == top);
        } else {
            assert(part[w].z == top);
        }
        assert forall|i: int| 0 <= i < part.len() implies (#[trigger] part[i]).z.spec_le(top) by {
            if i < n - 1 {
                assert(earlier[i].z.spec_le(before));
                lemma_order_laws(part[i].z, before, top);
            } else {
                lemma_order_laws(last, top, top);
            }
        }
    }
}

/// Whether the time rises from each sample to the next.
pub fn check_time_rises(samples: &Vec<TrajectorySample>) -> (r: bool)
    ensures
        r == time_rises(samples@),
{
    let n = samples.len();
    let mut k: usize = 1;
    while k < n
        invariant
            n == samples@.len(),
            1 <= k,
            forall|j: int| 0 <= j < k - 1 ==> (#[trigger] samples@[j]).t.spec_lt(samples@[j + 1].t),
        decreases n - k,
    {
        if !samples[k - 1].t.lt(&samples[k].t) {
            assert(!(#[trigger] samples@[k - 1]).t.spec_lt(samples@[k - 1 + 1].t));
            return false;
        }
        k = k + 1;
    }
    true
}

/// Whether the flight ends at ground contact.
pub fn check_lands_at_end(samples: &Vec<TrajectorySample>) -> (r: bool)
    ensures
        r == lands_at_end(samples@),
{
    let n = samples.len();
    if n == 0 {
        return false;
    }
    if samples[n - 1].z.is_positive() {
        return false;
    }
    let mut k: usize = 0;
    while k < n - 1
        invariant
            n == samples@.len(),
            n >= 1,
            k <= n - 1,
            !samples@.last().z.spec_is_positive(),
            forall|j: int| 0 <= j < k ==> !(#[trigger] samples@[j]).z.spec_is_negative(),
        decreases n - k,
    {
        if samples[k].z.is_negative() {
            return false;
        }
        k = k + 1;
    }
    true
}

/// The apex of a flight: the height of its highest sample.
pub fn apex_of(samples: &Vec<TrajectorySample>) -> (r: Decimal)
    requires
        samples@.len() >= 1,
    ensures
        r == highest(samples@, samples@.len() as int),
        is_apex(samples@, r),
{
    let n = samples.len();
    let mut apex = samples[0].z;
    let mut k: usize = 1;
    while k < n
        invariant
            n == samples@.len(),
            1 <= k <= n,
            apex == highest(samples@, k as int),
        decreases n - k,
    {
        if apex.lt(&samples[k].z) {
            apex = samples[k].z;
        }
        k = k + 1;
    }
    proof {
        lemma_highest_is_apex(samples@, n as int);
        assert(samples@.take(n as int) =~= samples@);
    }
    apex
}

/// The first fault of the outcome of a shot, in the order in which the rules
/// are applied; `None` for a sound flight. A smash factor outside the
/// plausible band is a fault with `strict`, and where the club speed was not
/// measured: the engine's own estimate has to be plausible.
#[verifier::opaque]
pub open spec fn assemble_fault(shot: ShotMeasurement, raw: RawOutcome, strict: bool) -> Option<
    PhysicsFault,
> {
    let samples = flight_of(raw.samples@);
    let carry = number_of(token_view(raw.carry_distance));
    let total = number_of(token_view(raw.total_distance));
    let offline = number_of(token_view(raw.offline_distance));
    let backspin = number_of(token_view(raw.backspin));
    let sidespin = number_of(token_view(raw.sidespin));
    let total_spin = number_of(token_view(raw.total_spin));
    let spin_axis = number_of(token_view(raw.spin_axis));
    let club = number_of(token_view(raw.club_speed));
    let smash = number_of(token_view(raw.smash_factor));
    if raw.truncated {
        Some(PhysicsFault::TooManySamples)
    } else if raw.samples@.len() == 0 {
        Some(PhysicsFault::NoSamples)
    } else if exists|i: int| 0 <= i < raw.samples@.len() && sample_of(#[trigger] raw.samples@[i]) is None {
        Some(PhysicsFault::Unstable(Output::Sample))
    } else if !time_rises(samples) {
        Some(PhysicsFault::DisorderedSamples)
    } else if !lands_at_end(samples) {
        Some(PhysicsFault::NoLanding)
    } else if carry is None {
        Some(PhysicsFault::Unstable(Output::CarryDistance))
    } else if carry->Some_0.spec_is_negative() {
        Some(PhysicsFault::NegativeCarry)
    } else if total is None {
        Some(PhysicsFault::Unstable(Output::TotalDistance))
    } else if !carry->Some_0.spec_le(total->Some_0) {
        Some(PhysicsFault::TotalBelowCarry)
    } else if offline is None {
        Some(PhysicsFault::Unstable(Output::OfflineDistance))
    } else if offline->Some_0.spec_order(samples.last().y) != Order::Same {
        Some(PhysicsFault::MisplacedLanding)
    } else if highest(samples, samples.len() as int).spec_is_negative() {
        Some(PhysicsFault::NegativeApex)
    } else if backspin is None {
        Some(PhysicsFault::Unstable(Output::Backspin))
    } else if sidespin is None {
        Some(PhysicsFault::Unstable(Output::Sidespin))
    } else if total_spin is None {
        Some(PhysicsFault::Unstable(Output::TotalSpin))
    } else if spin_axis is None {
        Some(PhysicsFault::Unstable(Output::SpinAxis))
    } else if !spin_consistent(backspin->Some_0, sidespin->Some_0, total_spin->Some_0) {
        Some(PhysicsFault::InconsistentSpin)
    } else if club is None {
        Some(PhysicsFault::Unstable(Output::ClubSpeed))
    } else if !club_speed_kept(shot.club_speed, club->Some_0) {
        Some(PhysicsFault::ClubSpeedChanged)
    } else if smash is None {
        Some(PhysicsFault::Unstable(Output::SmashFactor))
    } else if !smash_consistent(smash->Some_0, club->Some_0, shot.ball_speed) {
        Some(PhysicsFault::InconsistentSmash)
    } else if raw.shot_name is None {
        Some(PhysicsFault::Unstable(Output::ShotName))
    } else if raw.shot_rank is None {
        Some(PhysicsFault::Unstable(Output::ShotRank))
    } else if raw.shot_color is None {
        Some(PhysicsFault::Unstable(Output::ShotColor))
    } else if (strict || shot.club_speed is None) && !in_band(smash->Some_0) {
        Some(PhysicsFault::ImplausibleSmash)
    } else {
        None
    }
}

impl DerivedShotValues {
    /// Each of the distances, the apex, the flight time, the spins, the club
    /// speed and the smash factor is a finite number.
    pub open spec fn finite_values(self) -> bool {
        &&& is_finite(self.apex_height)
        &&& is_finite(self.flight_time)
        &&& is_finite(self.carry_distance)
        &&& is_finite(self.total_distance)
        &&& is_finite(self.offline_distance)
        &&& is_finite(self.backspin)
        &&& is_finite(self.sidespin)
        &&& is_finite(self.total_spin)
        &&& is_finite(self.spin_axis)
        &&& is_finite(self.club_speed)
        &&& is_finite(self.smash_factor)
    }

    /// The rules that every set of derived values obeys: each value is a
    /// finite number; the carry distance is not below zero, the total
    /// distance not below the carry distance, the apex not below the ground;
    /// there is a sample, the time rises from each sample to the next, the
    /// last sample is at or below the ground and none before it is below,
    /// the apex is the height of the highest sample, the flight time is the
    /// time of the last and the offline distance its lateral position;
    /// backspin and sidespin make up the total spin; the smash factor is
    /// marked suspect exactly where it lies outside the plausible band.
    pub open spec fn wf(self) -> bool {
        &&& self.finite_values()
        &&& !self.carry_distance.spec_is_negative()
        &&& self.carry_distance.spec_le(self.total_distance)
        &&& !self.apex_height.spec_is_negative()
        &&& self.samples@.len() >= 1
        &&& time_rises(self.samples@)
        &&& lands_at_end(self.samples@)
        &&& self.offline_distance.spec_order(self.samples@.last().y) == Order::Same
        &&& spin_consistent(self.backspin, self.sidespin, self.total_spin)
        &&& is_apex(self.samples@, self.apex_height)
        &&& self.flight_time == self.samples@.last().t
        &&& self.smash_suspect == !in_band(self.smash_factor)
    }

    /// The values are those that the outcome holds for the shot: each number
    /// as its token denotes it, each string as it stands, the apex and the
    /// flight time as the samples give them, and the three marks as the
    /// shot's fields and the band decide them.
    #[verifier::opaque]
    pub open spec fn derived_from(self, shot: ShotMeasurement, raw: RawOutcome) -> bool {
        &&& Some(self.carry_distance) == number_of(token_view(raw.carry_distance))
        &&& Some(self.total_distance) == number_of(token_view(raw.total_distance))
        &&& Some(self.offline_distance) == number_of(token_view(raw.offline_distance))
        &&& Some(self.backspin) == number_of(token_view(raw.backspin))
        &&& Some(self.sidespin) == number_of(token_view(raw.sidespin))
        &&& Some(self.total_spin) == number_of(token_view(raw.total_spin))
        &&& Some(self.spin_axis) == number_of(token_view(raw.spin_axis))
        &&& Some(self.club_speed) == number_of(token_view(raw.club_speed))
        &&& Some(self.smash_factor) == number_of(token_view(raw.smash_factor))
        &&& Some(self.shot_name@) == token_view(raw.shot_name)
        &&& Some(self.shot_rank@) == token_view(raw.shot_rank)
        &&& Some(self.shot_color@) == token_view(raw.shot_color)
        &&& self.samples@ == flight_of(raw.samples@)
        &&& self.apex_height == highest(self.samples@, self.samples@.len() as int)
        &&& self.flight_time == self.samples@.last().t
        &&& self.spin_estimated == (shot.spec_spin_input() == SpinInput::Assumed)
        &&& self.club_speed_estimated == (shot.club_speed is None)
        &&& self.smash_suspect == !in_band(self.smash_factor)
    }
}

/// The derived values are sound and carry the marks that the shot calls for:
/// the spin is marked as assumed where none was measured in full, the club
/// speed as estimated where none was measured and is the measured one where
/// one was, the smash factor is the ball speed over the club speed, and
/// neither a strict calculation nor an estimated club speed leaves the smash
/// factor suspect.
pub open spec fn sound_for(shot: ShotMeasurement, strict: bool, d: DerivedShotValues) -> bool {
    &&& d.wf()
    &&& d.spin_estimated == (shot.spec_spin_input() == SpinInput::Assumed)
    &&& d.club_speed_estimated == (shot.club_speed is None)
    &&& club_speed_kept(shot.club_speed, d.club_speed)
    &&& smash_consistent(d.smash_factor, d.club_speed, shot.ball_speed)
    &&& strict || d.club_speed_estimated ==> !d.smash_suspect
}

/// In every set of derived values the carry distance is at or above zero,
/// the total distance at or above the carry distance, and the apex at or
/// above zero.
pub proof fn lemma_distances_in_order(d: DerivedShotValues)
    requires
        d.wf(),
    ensures
        (Decimal { negative: false, mantissa: 0, exponent: 0 }).spec_le(d.carry_distance),
        d.carry_distance.spec_le(d.total_distance),
        (Decimal { negative: false, mantissa: 0, exponent: 0 }).spec_le(d.total_distance),
        (Decimal { negative: false, mantissa: 0, exponent: 0 }).spec_le(d.apex_height),
{
    let zero = Decimal { negative: false, mantissa: 0, exponent: 0 };
    lemma_sign_is_order(d.carry_distance);
    lemma_sign_is_order(d.apex_height);
    lemma_order_laws(zero, d.carry_distance, d.total_distance);
}

/// Makes the derived values of a shot from the outcome of its flight, or
/// names the first fault of the outcome.
pub fn assemble(shot: &ShotMeasurement, raw: &RawOutcome, strict: bool) -> (r: Result<
    DerivedShotValues,
    PhysicsFault,
>)
    ensures
        match r {
            Ok(d) => assemble_fault(*shot, *raw, strict) is None && d.derived_from(*shot, *raw)
                && sound_for(*shot, strict, d),
            Err(f) => assemble_fault(*shot, *raw, strict) == Some(f),
        },
{
    reveal(assemble_fault);
    reveal(DerivedShotValues::derived_from);
    if raw.truncated {
        return Err(PhysicsFault::TooManySamples);
    }
    let n = raw.samples.len();
    if n == 0 {
        return Err(PhysicsFault::NoSamples);
    }
    let mut samples: Vec<TrajectorySample> = Vec::new();
    let mut i: usize = 0;
    while i < n
        invariant
            !raw.truncated,
            n == raw.samples@.len(),
            n != 0,
            i <= n,
            samples@.len() == i,
            forall|j: int| 0 <= j < i ==> sample_of(#[trigger] raw.samples@[j]) == Some(samples@[j]),
        decreases n - i,
    {
        match read_sample(&raw.samples[i]) {
            None => {
                proof {
                    reveal(assemble_fault);
                }
                assert(sample_of(raw.samples@[i as int]) is None);
                return Err(PhysicsFault::Unstable(Output::Sample));
            },
            Some(s) => {
                samples.push(s);
            },
        }
        i = i + 1;
    }
    assert(samples@ =~= flight_of(raw.samples@));
    if !check_time_rises(&samples) {
        return Err(PhysicsFault::DisorderedSamples);
    }
    if !check_lands_at_end(&samples) {
        return Err(PhysicsFault::NoLanding);
    }
    let apex = apex_of(&samples);
    let carry_distance = match read_number(&raw.carry_distance) {
        None => { return Err(PhysicsFault::Unstable(Output::CarryDistance)); },
        Some(d) => d,
    };
    if carry_distance.is_negative() {
        return Err(PhysicsFault::NegativeCarry);
    }
    let total_distance = match read_number(&raw.total_distance) {
        None => { return Err(PhysicsFault::Unstable(Output::TotalDistance)); },
        Some(d) => d,
    };
    if !carry_distance.le(&total_distance) {
        return Err(PhysicsFault::TotalBelowCarry);
    }
    let offline_distance = match read_number(&raw.offline_distance) {
        None => { return Err(PhysicsFault::Unstable(Output::OfflineDistance)); },
        Some(d) => d,
    };
    match offline_distance.order(&samples[n - 1].y) {
        Order::Same => {},
        _ => {
            return Err(PhysicsFault::MisplacedLanding);
        },
    }
    if apex.is_negative() {
        return Err(PhysicsFault::NegativeApex);
    }
    let backspin = match read_number(&raw.backspin) {
        None => { return Err(PhysicsFault::Unstable(Output::Backspin)); },
        Some(d) => d,
    };
    let sidespin = match read_number(&raw.sidespin) {
        None => { return Err(PhysicsFault::Unstable(Output::Sidespin)); },
        Some(d) => d,
    };
    let total_spin = match read_number(&raw.total_spin) {
        None => { return Err(PhysicsFault::Unstable(Output::TotalSpin)); },
        Some(d) => d,
    };
    let spin_axis = match read_number(&raw.spin_axis) {
        None => { return Err(PhysicsFault::Unstable(Output::SpinAxis)); },
        Some(d) => d,
    };
    if !check_spin_consistent(&backspin, &sidespin, &total_spin) {
        return Err(PhysicsFault::InconsistentSpin);
    }
    let club_speed = match read_number(&raw.club_speed) {
        None => { return Err(PhysicsFault::Unstable(Output::ClubSpeed)); },
        Some(d) => d,
    };
    match shot.club_speed {
        Some(measured) => {
            if !check_close_to(&club_speed, &measured) {
                return Err(PhysicsFault::ClubSpeedChanged);
            }
        },
        None => {},
    }
    let smash_factor = match read_number(&raw.smash_factor) {
        None => { return Err(PhysicsFault::Unstable(Output::SmashFactor)); },
        Some(d) => d,
    };
    if !check_smash_consistent(&smash_factor, &club_speed, &shot.ball_speed) {
        return Err(PhysicsFault::InconsistentSmash);
    }
    let shot_name = match &raw.shot_name {
        None => { return Err(PhysicsFault::Unstable(Output::ShotName)); },
        Some(s) => s.clone(),
    };
    let shot_rank = match &raw.shot_rank {
        None => { return Err(PhysicsFault::Unstable(Output::ShotRank)); },
        Some(s) => s.clone(),
    };
    let shot_color = match &raw.shot_color {
        None => { return Err(PhysicsFault::Unstable(Output::ShotColor)); },
        Some(s) => s.clone(),
    };
    let plausible = check_in_band(&smash_factor);
    if (strict || shot.club_speed.is_none()) && !plausible {
        return Err(PhysicsFault::ImplausibleSmash);
    }
    let flight_time = samples[n - 1].t;
    proof {
        let top = choose|i: int| 0 <= i < samples@.len() && (#[trigger] samples@[i]).z == apex;
        assert(sample_of(raw.samples@[top]) == Some(samples@[top]));
        assert(sample_of(raw.samples@[n - 1]) == Some(samples@[n - 1]));
    }
    Ok(
        DerivedShotValues {
            carry_distance,
            total_distance,
            offline_distance,
            apex_height: apex,
            flight_time,
            backspin,
            sidespin,
            total_spin,
            spin_axis,
            club_speed,
            smash_factor,
            shot_name,
            shot_rank,
            shot_color,
            spin_estimated: shot.spin_estimated(),
            club_speed_estimated: shot.club_speed.is_none(),
            smash_suspect: !plausible,
            samples,
        },
    )
}

} // verus!
