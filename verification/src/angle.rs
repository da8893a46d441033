use vstd::prelude::*;

use crate::error::CivilEngineeringLocationError;
use crate::sign::Sign;

verus! {

/// Absolute value, widened to `int`.
pub open spec fn abs_int(x: int) -> int {
    if x < 0 {
        -x
    } else {
        x
    }
}

/// Angle units per arcsecond: one unit is 1.0e-4 arcsecond (about 3 mm of
/// arc on the Earth's surface), the resolution at which the 180-degree
/// domain codec quantizes.  A full turn is 1.296e+10 units, so an `i64`
/// holds more than seven hundred million full turns exactly.
pub const UNITS_PER_SECOND: i64 = 10_000;

/// Angle units per arcminute.
pub const UNITS_PER_MINUTE: i64 = 600_000;

/// Angle units per degree.
pub const UNITS_PER_DEGREE: i64 = 36_000_000;

/// Angle units per quarter turn (90 degrees).
pub const UNITS_PER_QUARTER_TURN: i64 = 3_240_000_000;

/// Angle units per half turn (180 degrees).
pub const UNITS_PER_HALF_TURN: i64 = 6_480_000_000;

/// Angle units per full turn (360 degrees).
pub const UNITS_PER_FULL_TURN: i64 = 12_960_000_000;

/// A planar angle, held exactly as a count of 1.0e-4 arcsecond units, or an
/// explicit infinity.  An infinity arises only from a source magnitude too
/// large for the fixed-point range; every conversion that needs a finite
/// angle rejects it with `CivilEngineeringLocationError::Infinite`.
#[derive(Debug, Clone, Copy, PartialEq, Eq, Structural)]
pub enum Angle {
    Finite { units: i64 },
    Infinite { negative: bool },
}

impl Angle {
    pub open spec fn is_finite(self) -> bool {
        self is Finite
    }

    /// The unit count of a finite angle (zero for an infinity).
    pub open spec fn units(self) -> int {
        match self {
            Angle::Finite { units } => units as int,
            Angle::Infinite { .. } => 0,
        }
    }

    /// The representative of `u` in [0, full turn), congruent modulo a full
    /// turn.
    pub open spec fn wrap_0_full(u: int) -> int {
        u % (UNITS_PER_FULL_TURN as int)
    }

    /// The representative of `u` in [-half turn, half turn), congruent
    /// modulo a full turn.
    pub open spec fn wrap_half(u: int) -> int {
        let m = Angle::wrap_0_full(u);
        if m >= UNITS_PER_HALF_TURN as int {
            m - UNITS_PER_FULL_TURN as int
        } else {
            m
        }
    }

    /// The reflection of `u` into [-quarter turn, quarter turn]: first the
    /// half-turn representative, then values beyond a quarter turn are
    /// folded back across it (latitude clamping by reflection, not
    /// wraparound).
    pub open spec fn fold_quarter(u: int) -> int {
        let m = Angle::wrap_half(u);
        if m > UNITS_PER_QUARTER_TURN as int {
            UNITS_PER_HALF_TURN as int - m
        } else if m < -(UNITS_PER_QUARTER_TURN as int) {
            -(UNITS_PER_HALF_TURN as int) - m
        } else {
            m
        }
    }

    /// An exact finite angle from a unit count.
    pub fn from_angle_units(units: i64) -> (r: Angle)
        ensures
            r == (Angle::Finite { units }),
    {
        Angle::Finite { units }
    }

    /// An angle from microdegrees (1.0e-6 degree), exact: one microdegree
    /// is 36 units.  A source beyond the fixed-point range gives the
    /// infinity of the same sign.
    pub fn from_microdegrees(microdegrees: i64) -> (r: Angle)
        ensures
            r == Angle::from_microdegrees_spec(microdegrees as int),
    {
        match microdegrees.checked_mul(36) {
            Some(units) => Angle::Finite { units },
            None => Angle::Infinite { negative: microdegrees < 0 },
        }
    }

    pub open spec fn from_microdegrees_spec(microdegrees: int) -> Angle {
        if i64::MIN <= microdegrees * 36 <= i64::MAX {
            Angle::Finite { units: (microdegrees * 36) as i64 }
        } else {
            Angle::Infinite { negative: microdegrees < 0 }
        }
    }

    /// The unit count of this angle, or `None` for an infinity.
    pub fn angle_units(&self) -> (r: Option<i64>)
        ensures
            self.is_finite() ==> r == Some(self.units() as i64),
            !self.is_finite() ==> r is None,
    {
        match *self {
            Angle::Finite { units } => Some(units),
            Angle::Infinite { .. } => None,
        }
    }

    /// Compose an angle from one shared sign and the non-negative unit
    /// counts of the degree, minute and second parts.  A magnitude beyond
    /// the fixed-point range gives the infinity of that sign.
    pub open spec fn from_sign_dms_spec(
        sign: Sign,
        degrees_units: int,
        minutes_units: int,
        seconds_units: int,
    ) -> Angle {
        let magnitude = degrees_units + minutes_units + seconds_units;
        if magnitude <= i64::MAX as int {
            Angle::Finite { units: (sign.factor() * magnitude) as i64 }
        } else {
            Angle::Infinite { negative: sign is Negative }
        }
    }

    /// Exec counterpart of `from_sign_dms_spec`.
    pub fn from_sign_dms(
        sign: Sign,
        degrees_units: u64,
        minutes_units: u64,
        seconds_units: u64,
    ) -> (r: Angle)
        ensures
            r == Angle::from_sign_dms_spec(
                sign,
                degrees_units as int,
                minutes_units as int,
                seconds_units as int,
            ),
    {
        let magnitude: u128 = degrees_units as u128 + minutes_units as u128
            + seconds_units as u128;
        if magnitude <= i64::MAX as u128 {
            let v: i64 = magnitude as i64;
            Angle::Finite { units: if sign.is_negative() { -v } else { v } }
        } else {
            Angle::Infinite { negative: sign.is_negative() }
        }
    }
}

/// Reduce an angle into one of the three canonical domains.  On the unit
/// grid a full turn is exact, so each reduction is exact modular
/// arithmetic; an infinity passes through unchanged (callers that need a
/// finite angle reject it themselves).
pub trait AngleAsNormalize: Sized {
    /// The value `as_normalize_0_pi` returns.
    spec fn normalize_0_2pi_spec(&self) -> Self;

    /// The value `as_normalize_negative_pi_positive_pi` returns.
    spec fn normalize_negative_pi_pi_spec(&self) -> Self;

    /// The value `as_normalize_negative_half_pi_positive_half_pi` returns.
    spec fn normalize_negative_half_pi_half_pi_spec(&self) -> Self;

    /// The equivalent angle in [0, full turn): for example a compass
    /// bearing.
    fn as_normalize_0_pi(&self) -> (r: Self)
        ensures
            r == self.normalize_0_2pi_spec(),
    ;

    /// The equivalent angle in [-half turn, half turn): for example a
    /// longitude.
    fn as_normalize_negative_pi_positive_pi(&self) -> (r: Self)
        ensures
            r == self.normalize_negative_pi_pi_spec(),
    ;

    /// The reflection into [-quarter turn, quarter turn], closed: for
    /// example a latitude, which clamps by reflection rather than wrapping.
    fn as_normalize_negative_half_pi_positive_half_pi(&self) -> (r: Self)
        ensures
            r == self.normalize_negative_half_pi_half_pi_spec(),
    ;
}

impl AngleAsNormalize for Angle {
    open spec fn normalize_0_2pi_spec(&self) -> Angle {
        match *self {
            Angle::Finite { units } => Angle::Finite {
                units: Angle::wrap_0_full(units as int) as i64,
            },
            Angle::Infinite { .. } => *self,
        }
    }

    open spec fn normalize_negative_pi_pi_spec(&self) -> Angle {
        match *self {
            Angle::Finite { units } => Angle::Finite {
                units: Angle::wrap_half(units as int) as i64,
            },
            Angle::Infinite { .. } => *self,
        }
    }

    open spec fn normalize_negative_half_pi_half_pi_spec(&self) -> Angle {
        match *self {
            Angle::Finite { units } => Angle::Finite {
                units: Angle::fold_quarter(units as int) as i64,
            },
            Angle::Infinite { .. } => *self,
        }
    }

    fn as_normalize_0_pi(&self) -> (r: Angle) {
        match *self {
            Angle::Finite { units } => {
                let m: i64 = units.checked_rem_euclid(UNITS_PER_FULL_TURN).unwrap();
                Angle::Finite { units: m }
            },
            Angle::Infinite { negative } => Angle::Infinite { negative },
        }
    }

    fn as_normalize_negative_pi_positive_pi(&self) -> (r: Angle) {
        match *self {
            Angle::Finite { units } => {
                let m: i64 = units.checked_rem_euclid(UNITS_PER_FULL_TURN).unwrap();
                let w: i64 = if m >= UNITS_PER_HALF_TURN {
                    m - UNITS_PER_FULL_TURN
                } else {
                    m
                };
                Angle::Finite { units: w }
            },
            Angle::Infinite { negative } => Angle::Infinite { negative },
        }
    }

    fn as_normalize_negative_half_pi_positive_half_pi(&self) -> (r: Angle) {
        match *self {
            Angle::Finite { units } => {
                let m: i64 = units.checked_rem_euclid(UNITS_PER_FULL_TURN).unwrap();
                let w: i64 = if m >= UNITS_PER_HALF_TURN {
                    m - UNITS_PER_FULL_TURN
                } else {
                    m
                };
                let f: i64 = if w > UNITS_PER_QUARTER_TURN {
                    UNITS_PER_HALF_TURN - w
                } else if w < -UNITS_PER_QUARTER_TURN {
                    -UNITS_PER_HALF_TURN - w
                } else {
                    w
                };
                Angle::Finite { units: f }
            },
            Angle::Infinite { negative } => Angle::Infinite { negative },
        }
    }
}

/// Law: normalizing a finite angle to the full-turn domain yields a finite
/// angle in [0, full turn) congruent to the source modulo one turn.
pub proof fn lemma_normalize_0_2pi(a: Angle)
    requires
        a.is_finite(),
    ensures
        a.normalize_0_2pi_spec().is_finite(),
        0 <= a.normalize_0_2pi_spec().units() < UNITS_PER_FULL_TURN as int,
        a.normalize_0_2pi_spec().units() % (UNITS_PER_FULL_TURN as int) == a.units() % (
        UNITS_PER_FULL_TURN as int),
{
    let f = UNITS_PER_FULL_TURN as int;
    let m = a.units() % f;
    assert(m % f == m) by {
        vstd::arithmetic::div_mod::lemma_small_mod(m as nat, f as nat);
    }
}

/// Law: normalizing a finite angle to the half-turn domain yields a finite
/// angle in [-half turn, half turn) congruent to the source modulo one
/// turn.
pub proof fn lemma_normalize_negative_pi_pi(a: Angle)
    requires
        a.is_finite(),
    ensures
        a.normalize_negative_pi_pi_spec().is_finite(),
        -(UNITS_PER_HALF_TURN as int) <= a.normalize_negative_pi_pi_spec().units()
            < UNITS_PER_HALF_TURN as int,
        a.normalize_negative_pi_pi_spec().units() % (UNITS_PER_FULL_TURN as int) == a.units() % (
        UNITS_PER_FULL_TURN as int),
{
    let f = UNITS_PER_FULL_TURN as int;
    let m = a.units() % f;
    assert(m % f == m) by {
        vstd::arithmetic::div_mod::lemma_small_mod(m as nat, f as nat);
    }
    if m >= UNITS_PER_HALF_TURN as int {
        assert((m - f) % f == m % f) by {
            vstd::arithmetic::div_mod::lemma_mod_sub_multiples_vanish(m, f);
        }
    }
}

/// Law: normalizing a finite angle to the quarter-turn domain yields a
/// finite angle in the closed interval [-quarter turn, quarter turn].
pub proof fn lemma_normalize_negative_half_pi_half_pi(a: Angle)
    requires
        a.is_finite(),
    ensures
        a.normalize_negative_half_pi_half_pi_spec().is_finite(),
        -(UNITS_PER_QUARTER_TURN as int) <= a.normalize_negative_half_pi_half_pi_spec().units()
            <= UNITS_PER_QUARTER_TURN as int,
{
}

/// Decompose an angle into sign, degrees, minutes and seconds under the
/// three domain conventions.  Seconds come back as a count of 1.0e-4
/// arcsecond units in [0, 600000); minutes in [0, 60); the degree bound is
/// the domain's.  An infinity is rejected with `Infinite`.
pub trait AngleAsDms: Sized {
    /// The value `as_dms_360` returns.
    spec fn dms_360_spec(&self) -> Result<(u16, u8, u32), CivilEngineeringLocationError>;

    /// The value `as_dms_180` returns.
    spec fn dms_180_spec(&self) -> Result<(Sign, u8, u8, u32), CivilEngineeringLocationError>;

    /// The value `as_dms_90` returns.
    spec fn dms_90_spec(&self) -> Result<(Sign, u8, u8, u32), CivilEngineeringLocationError>;

    /// The value `as_minutes` returns.
    spec fn as_minutes_spec(&self) -> Option<i64>;

    /// The value `as_seconds` returns.
    spec fn as_seconds_spec(&self) -> Option<i64>;

    /// (degrees in [0, 360), minutes, second units); the full-turn domain
    /// carries no sign.
    fn as_dms_360(&self) -> (r: Result<(u16, u8, u32), CivilEngineeringLocationError>)
        ensures
            r == self.dms_360_spec(),
    ;

    /// (sign, degrees in [0, 180], minutes, second units) of the half-turn
    /// domain [-180, 180) degrees; +180 degrees wraps to the -180
    /// representative.
    fn as_dms_180(&self) -> (r: Result<(Sign, u8, u8, u32), CivilEngineeringLocationError>)
        ensures
            r == self.dms_180_spec(),
    ;

    /// (sign, degrees in [0, 90], minutes, second units) of the closed
    /// quarter-turn domain [-90, 90] degrees, reached by reflection.
    fn as_dms_90(&self) -> (r: Result<(Sign, u8, u8, u32), CivilEngineeringLocationError>)
        ensures
            r == self.dms_90_spec(),
    ;

    /// The whole angle in 1.0e-4 arcminute steps, truncated toward zero;
    /// `None` for an infinity.
    fn as_minutes(&self) -> (r: Option<i64>)
        ensures
            r == self.as_minutes_spec(),
    ;

    /// The whole angle in 1.0e-4 arcsecond steps (exact); `None` for an
    /// infinity.
    fn as_seconds(&self) -> (r: Option<i64>)
        ensures
            r == self.as_seconds_spec(),
    ;
}

impl AngleAsDms for Angle {
    open spec fn dms_360_spec(&self) -> Result<(u16, u8, u32), CivilEngineeringLocationError> {
        if !self.is_finite() {
            Err(CivilEngineeringLocationError::Infinite)
        } else {
            let n = Angle::wrap_0_full(self.units());
            Ok(
                (
                    (n / (UNITS_PER_DEGREE as int)) as u16,
                    ((n % (UNITS_PER_DEGREE as int)) / (UNITS_PER_MINUTE as int)) as u8,
                    (n % (UNITS_PER_MINUTE as int)) as u32,
                ),
            )
        }
    }

    open spec fn dms_180_spec(&self) -> Result<(Sign, u8, u8, u32), CivilEngineeringLocationError> {
        if !self.is_finite() {
            Err(CivilEngineeringLocationError::Infinite)
        } else {
            let w = Angle::wrap_half(self.units());
            let t = abs_int(w);
            Ok(
                (
                    Sign::of_int(w),
                    (t / (UNITS_PER_DEGREE as int)) as u8,
                    ((t % (UNITS_PER_DEGREE as int)) / (UNITS_PER_MINUTE as int)) as u8,
                    (t % (UNITS_PER_MINUTE as int)) as u32,
                ),
            )
        }
    }

    open spec fn dms_90_spec(&self) -> Result<(Sign, u8, u8, u32), CivilEngineeringLocationError> {
        if !self.is_finite() {
            Err(CivilEngineeringLocationError::Infinite)
        } else {
            let w = Angle::fold_quarter(self.units());
            let t = abs_int(w);
            Ok(
                (
                    Sign::of_int(w),
                    (t / (UNITS_PER_DEGREE as int)) as u8,
                    ((t % (UNITS_PER_DEGREE as int)) / (UNITS_PER_MINUTE as int)) as u8,
                    (t % (UNITS_PER_MINUTE as int)) as u32,
                ),
            )
        }
    }

    open spec fn as_minutes_spec(&self) -> Option<i64> {
        if !self.is_finite() {
            None
        } else {
            Some((Sign::of_int(self.units()).factor() * (abs_int(self.units()) / 60)) as i64)
        }
    }

    open spec fn as_seconds_spec(&self) -> Option<i64> {
        if !self.is_finite() {
            None
        } else {
            Some(self.units() as i64)
        }
    }

    fn as_dms_360(&self) -> (r: Result<(u16, u8, u32), CivilEngineeringLocationError>) {
        match *self {
            Angle::Finite { units } => {
                let n: i64 = units.checked_rem_euclid(UNITS_PER_FULL_TURN).unwrap();
                let nu: u64 = n as u64;
                let d: u64 = nu / 36_000_000;
                let rem: u64 = nu % 36_000_000;
                let m: u64 = rem / 600_000;
                let s: u64 = rem % 600_000;
                Ok((d as u16, m as u8, s as u32))
            },
            Angle::Infinite { .. } => Err(CivilEngineeringLocationError::Infinite),
        }
    }

    fn as_dms_180(&self) -> (r: Result<(Sign, u8, u8, u32), CivilEngineeringLocationError>) {
        match *self {
            Angle::Finite { units } => {
                let m0: i64 = units.checked_rem_euclid(UNITS_PER_FULL_TURN).unwrap();
                let w: i64 = if m0 >= UNITS_PER_HALF_TURN {
                    m0 - UNITS_PER_FULL_TURN
                } else {
                    m0
                };
                let sign: Sign = Sign::from_i64(w);
                let t: u64 = if w < 0 {
                    (-w) as u64
                } else {
                    w as u64
                };
                let d: u64 = t / 36_000_000;
                let rem: u64 = t % 36_000_000;
                let m: u64 = rem / 600_000;
                let s: u64 = rem % 600_000;
                Ok((sign, d as u8, m as u8, s as u32))
            },
            Angle::Infinite { .. } => Err(CivilEngineeringLocationError::Infinite),
        }
    }

    fn as_dms_90(&self) -> (r: Result<(Sign, u8, u8, u32), CivilEngineeringLocationError>) {
        match *self {
            Angle::Finite { units } => {
                let m0: i64 = units.checked_rem_euclid(UNITS_PER_FULL_TURN).unwrap();
                let w0: i64 = if m0 >= UNITS_PER_HALF_TURN {
                    m0 - UNITS_PER_FULL_TURN
                } else {
                    m0
                };
                let w: i64 = if w0 > UNITS_PER_QUARTER_TURN {
                    UNITS_PER_HALF_TURN - w0
                } else if w0 < -UNITS_PER_QUARTER_TURN {
                    -UNITS_PER_HALF_TURN - w0
                } else {
                    w0
                };
                let sign: Sign = Sign::from_i64(w);
                let t: u64 = if w < 0 {
                    (-w) as u64
                } else {
                    w as u64
                };
                let d: u64 = t / 36_000_000;
                let rem: u64 = t % 36_000_000;
                let m: u64 = rem / 600_000;
                let s: u64 = rem % 600_000;
                Ok((sign, d as u8, m as u8, s as u32))
            },
            Angle::Infinite { .. } => Err(CivilEngineeringLocationError::Infinite),
        }
    }

    fn as_minutes(&self) -> (r: Option<i64>) {
        match *self {
            Angle::Finite { units } => {
                let t: u64 = if units < 0 {
                    (-(units as i128)) as u64
                } else {
                    units as u64
                };
                let m: u64 = t / 60;
                Some(
                    if units < 0 {
                        -(m as i64)
                    } else {
                        m as i64
                    },
                )
            },
            Angle::Infinite { .. } => None,
        }
    }

    fn as_seconds(&self) -> (r: Option<i64>) {
        match *self {
            Angle::Finite { units } => Some(units),
            Angle::Infinite { .. } => None,
        }
    }
}

/// Build an angle from independently signed degree, minute and second
/// parts, each given at 1.0e-4 resolution of its own unit (degrees,
/// minutes and seconds respectively, each multiplied by ten thousand).
/// The composite sign is the product of the three parts' signs, with zero
/// counting as positive; the magnitudes add.
pub trait FromDms: Sized {
    /// The angle `from_dms` returns.
    spec fn from_dms_spec(degrees_e4: int, minutes_e4: int, seconds_e4: int) -> Self;

    /// The angle `from_minutes` returns.
    spec fn from_minutes_spec(minutes_e4: int) -> Self;

    /// The angle `from_seconds` returns.
    spec fn from_seconds_spec(seconds_e4: int) -> Self;

    /// Combine the three signed parts; a magnitude beyond the fixed-point
    /// range gives the infinity of the composite sign.
    fn from_dms(degrees_e4: i64, minutes_e4: i64, seconds_e4: i64) -> (r: Result<
        Self,
        CivilEngineeringLocationError,
    >)
        ensures
            r is Ok,
            r->Ok_0 == Self::from_dms_spec(degrees_e4 as int, minutes_e4 as int, seconds_e4 as int),
    ;

    /// An angle of so many 1.0e-4 arcminutes.
    fn from_minutes(minutes_e4: i64) -> (r: Self)
        ensures
            r == Self::from_minutes_spec(minutes_e4 as int),
    ;

    /// An angle of so many 1.0e-4 arcseconds.
    fn from_seconds(seconds_e4: i64) -> (r: Self)
        ensures
            r == Self::from_seconds_spec(seconds_e4 as int),
    ;
}

impl FromDms for Angle {
    open spec fn from_dms_spec(degrees_e4: int, minutes_e4: int, seconds_e4: int) -> Angle {
        let sign = Sign::of_int(degrees_e4).times_spec(Sign::of_int(minutes_e4)).times_spec(
            Sign::of_int(seconds_e4),
        );
        let magnitude = abs_int(degrees_e4) * 3600 + abs_int(minutes_e4) * 60 + abs_int(seconds_e4);
        if magnitude <= i64::MAX as int {
            Angle::Finite { units: (sign.factor() * magnitude) as i64 }
        } else {
            Angle::Infinite { negative: sign is Negative }
        }
    }

    open spec fn from_minutes_spec(minutes_e4: int) -> Angle {
        if i64::MIN <= minutes_e4 * 60 <= i64::MAX {
            Angle::Finite { units: (minutes_e4 * 60) as i64 }
        } else {
            Angle::Infinite { negative: minutes_e4 < 0 }
        }
    }

    open spec fn from_seconds_spec(seconds_e4: int) -> Angle {
        Angle::Finite { units: seconds_e4 as i64 }
    }

    fn from_dms(degrees_e4: i64, minutes_e4: i64, seconds_e4: i64) -> (r: Result<
        Angle,
        CivilEngineeringLocationError,
    >) {
        let sign: Sign = Sign::from_i64(degrees_e4).times(Sign::from_i64(minutes_e4)).times(
            Sign::from_i64(seconds_e4),
        );
        let du: u128 = magnitude_u128(degrees_e4);
        let mu: u128 = magnitude_u128(minutes_e4);
        let su: u128 = magnitude_u128(seconds_e4);
        let magnitude: u128 = du * 3600 + mu * 60 + su;
        if magnitude <= i64::MAX as u128 {
            let v: i64 = magnitude as i64;
            Ok(
                Angle::Finite {
                    units: if sign.is_negative() {
                        -v
                    } else {
                        v
                    },
                },
            )
        } else {
            Ok(Angle::Infinite { negative: sign.is_negative() })
        }
    }

    fn from_minutes(minutes_e4: i64) -> (r: Angle) {
        match minutes_e4.checked_mul(60) {
            Some(units) => Angle::Finite { units },
            None => Angle::Infinite { negative: minutes_e4 < 0 },
        }
    }

    fn from_seconds(seconds_e4: i64) -> (r: Angle) {
        Angle::Finite { units: seconds_e4 }
    }
}

/// The absolute value of an `i64`, widened.
fn magnitude_u128(v: i64) -> (r: u128)
    ensures
        r as int == abs_int(v as int),
{
    if v < 0 {
        (-(v as i128)) as u128
    } else {
        v as u128
    }
}

/// Law: decomposing a finite angle in the half-turn domain and recomposing
/// the parts under the same sign reproduces the half-turn representative
/// exactly; for an angle already strictly inside the domain, the angle
/// itself.
pub proof fn lemma_dms_180_round_trip(a: Angle)
    requires
        a.is_finite(),
    ensures
        ({
            let parts = a.dms_180_spec()->Ok_0;
            Angle::from_sign_dms_spec(
                parts.0,
                (parts.1 as int) * (UNITS_PER_DEGREE as int),
                (parts.2 as int) * (UNITS_PER_MINUTE as int),
                parts.3 as int,
            ) == (Angle::Finite { units: Angle::wrap_half(a.units()) as i64 })
        }),
        -(UNITS_PER_HALF_TURN as int) < a.units() < UNITS_PER_HALF_TURN as int
            ==> Angle::wrap_half(a.units()) == a.units(),
{
    let f = UNITS_PER_FULL_TURN as int;
    let u = a.units();
    let w = Angle::wrap_half(u);
    let t = abs_int(w);
    let deg = t / (UNITS_PER_DEGREE as int);
    let remd = t % (UNITS_PER_DEGREE as int);
    let min = remd / (UNITS_PER_MINUTE as int);
    let sec = t % (UNITS_PER_MINUTE as int);
    assert(t == deg * (UNITS_PER_DEGREE as int) + remd);
    assert(remd == min * (UNITS_PER_MINUTE as int) + remd % (UNITS_PER_MINUTE as int));
    assert(remd % (UNITS_PER_MINUTE as int) == sec) by {
        vstd::arithmetic::div_mod::lemma_mod_mod(t, UNITS_PER_MINUTE as int, 60);
    }
    if -(UNITS_PER_HALF_TURN as int) < u < UNITS_PER_HALF_TURN as int {
        if u >= 0 {
            vstd::arithmetic::div_mod::lemma_small_mod(u as nat, f as nat);
        } else {
            assert((u + f) % f == u % f) by {
                vstd::arithmetic::div_mod::lemma_mod_add_multiples_vanish(u, f);
            }
            vstd::arithmetic::div_mod::lemma_small_mod((u + f) as nat, f as nat);
        }
    }
}

/// Law: recomposing the half-turn decomposition through `from_dms`, with
/// the sign carried on the degree part, reproduces the angle, for angles
/// strictly inside the domain whose degree part can carry the sign (a
/// negative angle smaller than one degree has a zero degree part, and a
/// zero part cannot carry a negative sign).
pub proof fn lemma_from_dms_round_trip(a: Angle)
    requires
        a.is_finite(),
        -(UNITS_PER_HALF_TURN as int) < a.units() < UNITS_PER_HALF_TURN as int,
        a.units() >= 0 || a.units() <= -(UNITS_PER_DEGREE as int),
    ensures
        ({
            let parts = a.dms_180_spec()->Ok_0;
            Angle::from_dms_spec(
                parts.0.factor() * (parts.1 as int) * 10_000,
                (parts.2 as int) * 10_000,
                parts.3 as int,
            ) == a
        }),
{
    lemma_dms_180_round_trip(a);
    let u = a.units();
    let w = Angle::wrap_half(u);
    let t = abs_int(w);
    let deg = t / (UNITS_PER_DEGREE as int);
    let remd = t % (UNITS_PER_DEGREE as int);
    let min = remd / (UNITS_PER_MINUTE as int);
    let sec = t % (UNITS_PER_MINUTE as int);
    assert(t == deg * (UNITS_PER_DEGREE as int) + remd);
    assert(remd == min * (UNITS_PER_MINUTE as int) + sec) by {
        vstd::arithmetic::div_mod::lemma_mod_mod(t, UNITS_PER_MINUTE as int, 60);
    }
}

/// Law: rendering quantizes only the seconds, to one decimal digit
/// (rounded half up).  Recombining the half-turn decomposition with the
/// rendered seconds value lands within half a rendering step (500 units,
/// 0.05 arcsecond) of the normalized angle, so a display round trip can
/// lose at most the seconds rounding.
pub proof fn lemma_display_round_trip_180(a: Angle)
    requires
        a.is_finite(),
    ensures
        ({
            let p = a.dms_180_spec()->Ok_0;
            let tenths = ((p.3 as int) + 500) / 1000;
            abs_int(
                p.0.factor() * ((p.1 as int) * (UNITS_PER_DEGREE as int) + (p.2 as int) * (
                UNITS_PER_MINUTE as int) + tenths * 1000) - Angle::wrap_half(a.units()),
            ) <= 500
        }),
{
    let u = a.units();
    let w = Angle::wrap_half(u);
    let t = abs_int(w);
    let p = a.dms_180_spec()->Ok_0;
    let sec = p.3 as int;
    let tenths = (sec + 500) / 1000;
    assert(sec + 500 == 1000 * tenths + (sec + 500) % 1000);
    let deg = t / (UNITS_PER_DEGREE as int);
    let remd = t % (UNITS_PER_DEGREE as int);
    assert(t == deg * (UNITS_PER_DEGREE as int) + remd);
    assert(remd == (remd / (UNITS_PER_MINUTE as int)) * (UNITS_PER_MINUTE as int) + remd % (
    UNITS_PER_MINUTE as int));
    assert(remd % (UNITS_PER_MINUTE as int) == sec) by {
        vstd::arithmetic::div_mod::lemma_mod_mod(t, UNITS_PER_MINUTE as int, 60);
    }
}

/// The same law for the quarter-turn (latitude) decomposition.
pub proof fn lemma_display_round_trip_90(a: Angle)
    requires
        a.is_finite(),
    ensures
        ({
            let p = a.dms_90_spec()->Ok_0;
            let tenths = ((p.3 as int) + 500) / 1000;
            abs_int(
                p.0.factor() * ((p.1 as int) * (UNITS_PER_DEGREE as int) + (p.2 as int) * (
                UNITS_PER_MINUTE as int) + tenths * 1000) - Angle::fold_quarter(a.units()),
            ) <= 500
        }),
{
    let u = a.units();
    let w = Angle::fold_quarter(u);
    let t = abs_int(w);
    let p = a.dms_90_spec()->Ok_0;
    let sec = p.3 as int;
    let tenths = (sec + 500) / 1000;
    assert(sec + 500 == 1000 * tenths + (sec + 500) % 1000);
    let deg = t / (UNITS_PER_DEGREE as int);
    let remd = t % (UNITS_PER_DEGREE as int);
    assert(t == deg * (UNITS_PER_DEGREE as int) + remd);
    assert(remd == (remd / (UNITS_PER_MINUTE as int)) * (UNITS_PER_MINUTE as int) + remd % (
    UNITS_PER_MINUTE as int));
    assert(remd % (UNITS_PER_MINUTE as int) == sec) by {
        vstd::arithmetic::div_mod::lemma_mod_mod(t, UNITS_PER_MINUTE as int, 60);
    }
}

} // verus!
