//! The physical train model and its throttle/brake control law.
//!
//! All quantities are fixed-point integers: distance in millimetres,
//! velocity in millimetres per second, acceleration in millimetres per
//! second squared, mass in kilograms, power in watts, force in
//! millinewtons. The resistive and traction constants are derived once at
//! construction and never change; every tick applies the bang-bang braking
//! controller and one explicit-Euler integration step, each specified
//! exactly by the step functions below.

use vstd::prelude::*;

verus! {

/// Velocity magnitudes are kept within this bound (mm/s) by clamping the
/// Euler step.
pub const VMAX_MM_S: i64 = 500_000;

/// Position magnitudes are kept within this bound (mm) by clamping the
/// Euler step.
pub const PMAX_MM: i64 = 1_000_000_000_000;

/// Acceleration bound (mm/s^2) implied by the force and mass bounds.
pub const AMAX_MM_S2: i64 = 2_000_000_000_000;

/// Target-distance bound (mm): a target distance is a difference of two
/// position-bounded quantities.
pub const DMAX_MM: i64 = 2_000_000_000_000;

/// The magnitude of `x`.
pub open spec fn abs_i(x: int) -> int {
    if x >= 0 {
        x
    } else {
        -x
    }
}

/// Division truncating toward zero (as machine division does), for a
/// non-zero divisor.
pub open spec fn div_trunc(n: int, d: int) -> int
    recommends
        d != 0,
{
    let q = abs_i(n) / abs_i(d);
    if (n < 0) != (d < 0) {
        -q
    } else {
        q
    }
}

/// `x` clamped into `[lo, hi]`.
pub open spec fn clamp_i(x: int, lo: int, hi: int) -> int {
    if x < lo {
        lo
    } else if x > hi {
        hi
    } else {
        x
    }
}

/// The smaller of two values.
pub open spec fn min_i(a: int, b: int) -> int {
    if a < b {
        a
    } else {
        b
    }
}

/// A train: identity, fixed physical constants, and the mutable motion and
/// control state its driver advances every tick.
#[derive(Debug, Clone, Copy, PartialEq, Eq)]
pub struct Train {
    pub name: u64,
    /// Mass in kilograms.
    pub mass: i64,
    /// Total engine power in watts, over all engines.
    pub power: i64,
    /// Axle resistance in millinewtons.
    pub axle_resistance: i64,
    /// Rolling resistance in millinewtons.
    pub rolling_resistance: i64,
    /// Frontal area in square millimetres; the air drag in millinewtons is
    /// this times the squared velocity (mm/s), divided by 10^9.
    pub air_resistance_coefficient: i64,
    /// Traction limit in millinewtons.
    pub max_tractive_effort: i64,
    /// Distance run into the current block, millimetres.
    pub position: i64,
    /// Velocity in millimetres per second.
    pub velocity: i64,
    /// Throttle percentage: positive powers, negative brakes.
    pub throttle: i16,
    /// Acceleration of the last step, mm/s^2.
    pub acceleration: i64,
    /// Velocity the controller steers toward, mm/s.
    pub target_velocity: i64,
    /// Distance left to reach the target velocity, millimetres.
    pub target_distance: i64,
    /// Length of the current block, millimetres.
    pub block_length: i64,
    pub max_throttle: i16,
    pub max_brake: i16,
    pub emergency_brake: i16,
    pub emergency: bool,
}

impl Train {
    /// The bounds every train satisfies: constructors establish them and
    /// every tick preserves them.
    pub open spec fn wf(self) -> bool {
        &&& 1 <= self.mass <= 10_000_000
        &&& 0 <= self.power <= 2_000_000_000
        &&& 0 <= self.axle_resistance <= 2_000_000_000
        &&& 0 <= self.rolling_resistance <= 3_000_000_000
        &&& 0 <= self.air_resistance_coefficient <= 25_000_000
        &&& 0 <= self.max_tractive_effort <= 500_000_000_000
        &&& -VMAX_MM_S <= self.velocity <= VMAX_MM_S
        &&& -PMAX_MM <= self.position <= PMAX_MM
        &&& -VMAX_MM_S <= self.target_velocity <= VMAX_MM_S
        &&& -DMAX_MM <= self.target_distance <= DMAX_MM
        &&& 0 <= self.block_length <= PMAX_MM
        &&& self.max_throttle == 100
        &&& self.max_brake == 150
        &&& self.emergency_brake == 200
        &&& -200 <= self.throttle <= 100
        &&& -AMAX_MM_S2 <= self.acceleration <= AMAX_MM_S2
    }

    /// The throttle after one controller step that brakes harder: down a
    /// fixed step of 10, clamped at the service brake; a controller already
    /// saturated at the service brake escalates to the emergency brake and
    /// raises the emergency flag.
    pub open spec fn spec_throttle_down(t: Train) -> Train {
        if t.throttle == -t.max_brake {
            Train { throttle: (-t.emergency_brake as int) as i16, emergency: true, ..t }
        } else {
            let th = if t.throttle - 10 < -t.max_brake {
                -t.max_brake as int
            } else {
                t.throttle - 10
            };
            Train { throttle: th as i16, ..t }
        }
    }

    /// The throttle after one controller step that powers harder: up a
    /// fixed step of 10, clamped at full throttle.
    pub open spec fn spec_throttle_up(t: Train) -> Train {
        let th = if t.throttle + 10 > t.max_throttle {
            t.max_throttle as int
        } else {
            t.throttle + 10
        };
        Train { throttle: th as i16, ..t }
    }

    /// One step of the braking-curve controller. The target acceleration is
    /// solved from `v^2 = u^2 + 2 a s` over the remaining distance less a
    /// fixed 5 metre safety margin; the throttle steps toward it. When the
    /// margin consumes the whole remaining distance the divisor vanishes
    /// and the sign of the numerator alone steers the throttle.
    pub open spec fn spec_control_step(t: Train) -> Train {
        let num = t.target_velocity * t.target_velocity - t.velocity * t.velocity;
        let den = 2 * (t.target_distance - 5000);
        if den == 0 {
            if num > 0 {
                Self::spec_throttle_up(t)
            } else if num < 0 {
                Self::spec_throttle_down(t)
            } else {
                t
            }
        } else {
            let target_acceleration = div_trunc(num, den);
            if t.acceleration > target_acceleration {
                Self::spec_throttle_down(t)
            } else if t.acceleration < target_acceleration {
                Self::spec_throttle_up(t)
            } else {
                t
            }
        }
    }

    /// The control phase of one tick: run the controller when not in an
    /// emergency stop; during one, release the emergency and zero the
    /// throttle once speed has decayed to walking pace.
    pub open spec fn spec_phase1(t: Train) -> Train {
        if !t.emergency {
            Self::spec_control_step(t)
        } else if abs_i(t.velocity as int) <= 100 {
            Train { emergency: false, throttle: 0 as i16, ..t }
        } else {
            t
        }
    }

    /// Total resistive force, millinewtons: axle plus rolling plus air drag
    /// growing with the square of the velocity.
    pub open spec fn spec_resistive_mn(t: Train) -> int {
        t.axle_resistance + t.rolling_resistance + t.air_resistance_coefficient * (t.velocity
            * t.velocity) / 1_000_000_000
    }

    /// The traction available, millinewtons: the tractive-effort limit,
    /// further capped by the power limit `P / |v|` once moving.
    pub open spec fn spec_traction_cap_mn(t: Train) -> int {
        if t.velocity == 0 {
            t.max_tractive_effort as int
        } else {
            min_i(t.max_tractive_effort as int, t.power * 1_000_000 / abs_i(t.velocity as int))
        }
    }

    /// Propulsion force, millinewtons: the whole-hundreds throttle level
    /// (machine division truncates toward zero) times the available
    /// traction.
    pub open spec fn spec_propulsion_mn(t: Train) -> int {
        div_trunc(t.throttle as int, 100) * Self::spec_traction_cap_mn(t)
    }

    /// Net force, millinewtons: propulsion minus resistance acting against
    /// the direction of travel.
    pub open spec fn spec_force_mn(t: Train) -> int {
        if t.velocity > 0 {
            Self::spec_propulsion_mn(t) - Self::spec_resistive_mn(t)
        } else if t.velocity < 0 {
            Self::spec_propulsion_mn(t) + Self::spec_resistive_mn(t)
        } else {
            Self::spec_propulsion_mn(t)
        }
    }

    /// The acceleration of this tick, mm/s^2: net force over mass.
    pub open spec fn spec_accel(t: Train) -> int {
        div_trunc(Self::spec_force_mn(t), t.mass as int)
    }

    /// The velocity after one Euler step of `dt` milliseconds, clamped.
    pub open spec fn spec_new_velocity(t: Train, dt: int) -> int {
        clamp_i(t.velocity + div_trunc(Self::spec_accel(t) * dt, 1000), -VMAX_MM_S as int, VMAX_MM_S as int)
    }

    /// The position after one Euler step of `dt` milliseconds, clamped: the
    /// updated velocity carries the train forward.
    pub open spec fn spec_new_position(t: Train, dt: int) -> int {
        clamp_i(
            t.position + div_trunc(Self::spec_new_velocity(t, dt) * dt, 1000),
            -PMAX_MM as int,
            PMAX_MM as int,
        )
    }

    /// The integration phase of one tick.
    pub open spec fn spec_drive_step(t: Train, dt: int) -> Train {
        Train {
            acceleration: Self::spec_accel(t) as i64,
            velocity: Self::spec_new_velocity(t, dt) as i64,
            position: Self::spec_new_position(t, dt) as i64,
            ..t
        }
    }

    /// One whole tick: the control phase followed by the integration phase.
    pub open spec fn spec_update(t: Train, dt: int) -> Train {
        Self::spec_drive_step(Self::spec_phase1(t), dt)
    }

    /// Builds a train from its configuration. The resistive constants are
    /// derived once here: axle resistance 0.2% of weight, rolling
    /// resistance 0.15% of weight, air drag by frontal area, and the
    /// traction limit as half of mass times the design acceleration.
    /// `gravity` is the surface gravity in mm/s^2, passed in explicitly.
    pub fn new(
        name: u64,
        mass: u64,
        power: u64,
        engines: u64,
        width: u64,
        height: u64,
        max_acceleration: u64,
        gravity: u64,
    ) -> (r: Train)
        requires
            1 <= mass <= 10_000_000,
            power <= 1_000_000_000,
            1 <= engines,
            power * engines <= 2_000_000_000,
            1 <= width <= 25_000,
            1 <= height <= 25_000,
            width * height <= 25_000_000,
            1 <= max_acceleration <= 100_000,
            1 <= gravity <= 100_000,
        ensures
            r.name == name,
            r.mass == mass,
            r.power == power * engines,
            r.axle_resistance == 2 * (mass * gravity) / 1000,
            r.rolling_resistance == 3 * (mass * gravity) / 2000,
            r.air_resistance_coefficient == width * height,
            r.max_tractive_effort == mass * max_acceleration / 2,
            r.position == 0,
            r.velocity == 0,
            r.throttle == 0,
            r.acceleration == 0,
            r.target_velocity == 0,
            r.target_distance == 0,
            r.block_length == 0,
            !r.emergency,
            r.wf(),
    {
        proof {
            assert(mass * gravity <= 1_000_000_000_000) by (nonlinear_arith)
                requires
                    1 <= mass <= 10_000_000,
                    1 <= gravity <= 100_000,
            ;
            assert(mass * gravity >= 1) by (nonlinear_arith)
                requires
                    1 <= mass,
                    1 <= gravity,
            ;
            assert(mass * max_acceleration <= 1_000_000_000_000) by (nonlinear_arith)
                requires
                    1 <= mass <= 10_000_000,
                    1 <= max_acceleration <= 100_000,
            ;
            assert(mass * max_acceleration >= 0) by (nonlinear_arith)
                requires
                    1 <= mass,
                    1 <= max_acceleration,
            ;
        }
        let weight = mass * gravity;
        Train {
            name,
            mass: mass as i64,
            power: (power * engines) as i64,
            axle_resistance: (2 * weight / 1000) as i64,
            rolling_resistance: (3 * weight / 2000) as i64,
            air_resistance_coefficient: (width * height) as i64,
            max_tractive_effort: (mass * max_acceleration / 2) as i64,
            position: 0,
            velocity: 0,
            throttle: 0,
            acceleration: 0,
            target_velocity: 0,
            target_distance: 0,
            block_length: 0,
            max_throttle: 100,
            max_brake: 150,
            emergency_brake: 200,
            emergency: false,
        }
    }

    /// One step of the braking-curve controller, exactly
    /// [`Train::spec_control_step`].
    fn control(&mut self)
        requires
            old(self).wf(),
        ensures
            *final(self) == Self::spec_control_step(*old(self)),
            final(self).wf(),
    {
        let tv = self.target_velocity;
        let v = self.velocity;
        proof {
            assert(tv * tv <= VMAX_MM_S * VMAX_MM_S) by (nonlinear_arith)
                requires
                    -VMAX_MM_S <= tv <= VMAX_MM_S,
            ;
            assert(v * v <= VMAX_MM_S * VMAX_MM_S) by (nonlinear_arith)
                requires
                    -VMAX_MM_S <= v <= VMAX_MM_S,
            ;
            assert(tv * tv >= 0) by (nonlinear_arith);
            assert(v * v >= 0) by (nonlinear_arith);
        }
        let num = tv * tv - v * v;
        let den = 2 * (self.target_distance - 5000);
        if den == 0 {
            if num > 0 {
                self.throttle_up();
            } else if num < 0 {
                self.throttle_down();
            }
        } else {
            let nm: u64 = if num >= 0 {
                num as u64
            } else {
                (-num) as u64
            };
            let dm: u64 = if den >= 0 {
                den as u64
            } else {
                (-den) as u64
            };
            let q = nm / dm;
            let target_acceleration: i64 = if (num < 0) != (den < 0) {
                -(q as i64)
            } else {
                q as i64
            };
            assert(target_acceleration == div_trunc(num as int, den as int));
            if self.acceleration > target_acceleration {
                self.throttle_down();
            } else if self.acceleration < target_acceleration {
                self.throttle_up();
            }
        }
    }

    /// Brake harder by one controller step, escalating to the emergency
    /// brake when already saturated at the service brake.
    fn throttle_down(&mut self)
        requires
            old(self).wf(),
        ensures
            *final(self) == Self::spec_throttle_down(*old(self)),
            final(self).wf(),
    {
        if self.throttle == -self.max_brake {
            self.throttle = -self.emergency_brake;
            self.emergency = true;
        } else {
            let stepped = self.throttle - 10;
            self.throttle = if stepped < -self.max_brake {
                -self.max_brake
            } else {
                stepped
            };
        }
    }

    /// Power harder by one controller step, clamped at full throttle.
    fn throttle_up(&mut self)
        requires
            old(self).wf(),
        ensures
            *final(self) == Self::spec_throttle_up(*old(self)),
            final(self).wf(),
    {
        let stepped = self.throttle + 10;
        self.throttle = if stepped > self.max_throttle {
            self.max_throttle
        } else {
            stepped
        };
    }

    /// Advances the train by `delta_time` milliseconds: the control phase
    /// (or emergency handling), then the force balance and one
    /// explicit-Euler integration step. Exactly [`Train::spec_update`].
    #[verifier::rlimit(60)]
    pub fn update(&mut self, delta_time: u64)
        requires
            old(self).wf(),
            1 <= delta_time <= 60_000,
        ensures
            *final(self) == Self::spec_update(*old(self), delta_time as int),
            final(self).wf(),
    {
        if !self.emergency {
            self.control();
        } else {
            let vmag = if self.velocity >= 0 {
                self.velocity
            } else {
                -self.velocity
            };
            if vmag <= 100 {
                self.emergency = false;
                self.throttle = 0;
            }
        }
        assert(*self == Self::spec_phase1(*old(self)));

        let v = self.velocity;
        proof {
            assert(v * v <= VMAX_MM_S * VMAX_MM_S) by (nonlinear_arith)
                requires
                    -VMAX_MM_S <= v <= VMAX_MM_S,
            ;
            assert(v * v >= 0) by (nonlinear_arith);
            assert(self.air_resistance_coefficient * (v * v) <= 25_000_000 * (VMAX_MM_S
                * VMAX_MM_S)) by (nonlinear_arith)
                requires
                    0 <= self.air_resistance_coefficient <= 25_000_000,
                    0 <= v * v <= VMAX_MM_S * VMAX_MM_S,
            ;
            assert(self.air_resistance_coefficient * (v * v) >= 0) by (nonlinear_arith)
                requires
                    0 <= self.air_resistance_coefficient,
                    0 <= v * v,
            ;
        }
        let v2 = v * v;
        let air: u64 = ((self.air_resistance_coefficient as u64) * (v2 as u64)) / 1_000_000_000;
        assert(air <= 6_250_000_000);
        let resistive: i64 = self.axle_resistance + self.rolling_resistance + (air as i64);
        assert(resistive == Self::spec_resistive_mn(*self));
        assert(0 <= resistive <= 12_000_000_000);

        let vmag: u64 = if v >= 0 {
            v as u64
        } else {
            (-v) as u64
        };
        let cap: i64 = if vmag == 0 {
            self.max_tractive_effort
        } else {
            let power_limit = ((self.power as u64) * 1_000_000) / vmag;
            if power_limit < (self.max_tractive_effort as u64) {
                power_limit as i64
            } else {
                self.max_tractive_effort
            }
        };
        assert(cap == Self::spec_traction_cap_mn(*self));
        assert(0 <= cap <= 500_000_000_000);

        let th = self.throttle;
        let thmag: u64 = if th >= 0 {
            th as u64
        } else {
            (-(th as i64)) as u64
        };
        let level_mag = thmag / 100;
        let level: i64 = if th < 0 {
            -(level_mag as i64)
        } else {
            level_mag as i64
        };
        assert(level == div_trunc(th as int, 100));
        assert(-2 <= level <= 1);
        proof {
            assert(level * cap == Self::spec_propulsion_mn(*self));
            assert(-2 * 500_000_000_000 <= level * cap <= 500_000_000_000) by (nonlinear_arith)
                requires
                    -2 <= level <= 1,
                    0 <= cap <= 500_000_000_000,
            ;
        }
        let propulsion = level * cap;

        let force: i64 = if v > 0 {
            propulsion - resistive
        } else if v < 0 {
            propulsion + resistive
        } else {
            propulsion
        };
        assert(force == Self::spec_force_mn(*self));
        assert(-1_015_000_000_000 <= force <= 1_015_000_000_000);

        let fmag: u64 = if force >= 0 {
            force as u64
        } else {
            (-force) as u64
        };
        let amag = fmag / (self.mass as u64);
        proof {
            assert(amag <= fmag);
        }
        let acceleration: i64 = if force < 0 {
            -(amag as i64)
        } else {
            amag as i64
        };
        assert(acceleration == Self::spec_accel(*self));

        let ghost t1 = *self;
        self.acceleration = acceleration;

        proof {
            assert(acceleration * (delta_time as i64) <= 1_015_000_000_000 * 60_000
                && acceleration * (delta_time as i64) >= -1_015_000_000_000 * 60_000)
                by (nonlinear_arith)
                requires
                    -1_015_000_000_000 <= acceleration <= 1_015_000_000_000,
                    1 <= (delta_time as i64) <= 60_000,
            ;
        }
        let adt: i64 = acceleration * (delta_time as i64);
        let adtmag: u64 = if adt >= 0 {
            adt as u64
        } else {
            (-adt) as u64
        };
        let dvmag = adtmag / 1000;
        let dv: i64 = if adt < 0 {
            -(dvmag as i64)
        } else {
            dvmag as i64
        };
        assert(dv == div_trunc(Self::spec_accel(t1) * (delta_time as int), 1000));

        let vsum = self.velocity + dv;
        let new_velocity: i64 = if vsum < -VMAX_MM_S {
            -VMAX_MM_S
        } else if vsum > VMAX_MM_S {
            VMAX_MM_S
        } else {
            vsum
        };
        self.velocity = new_velocity;
        assert(self.velocity == Self::spec_new_velocity(t1, delta_time as int));

        proof {
            assert(-VMAX_MM_S * 60_000 <= new_velocity * (delta_time as i64) <= VMAX_MM_S
                * 60_000) by (nonlinear_arith)
                requires
                    -VMAX_MM_S <= new_velocity <= VMAX_MM_S,
                    1 <= (delta_time as i64) <= 60_000,
            ;
        }
        let vdt: i64 = new_velocity * (delta_time as i64);
        let vdtmag: u64 = if vdt >= 0 {
            vdt as u64
        } else {
            (-vdt) as u64
        };
        let dpmag = vdtmag / 1000;
        let dp: i64 = if vdt < 0 {
            -(dpmag as i64)
        } else {
            dpmag as i64
        };
        let psum = self.position + dp;
        let new_position: i64 = if psum < -PMAX_MM {
            -PMAX_MM
        } else if psum > PMAX_MM {
            PMAX_MM
        } else {
            psum
        };
        self.position = new_position;
        assert(self.position == Self::spec_new_position(t1, delta_time as int));
        assert(*self == Self::spec_update(*old(self), delta_time as int));
    }
}

/// Physics steady state: when the target velocity equals the current
/// velocity and the target distance leaves room past the safety margin, the
/// controller's target acceleration is zero, so one control step moves the
/// throttle toward cancelling the current acceleration: down when
/// accelerating, up when decelerating, and unchanged at zero acceleration.
pub proof fn lemma_control_steady_state(t: Train)
    requires
        t.wf(),
        t.target_velocity == t.velocity,
        t.target_distance > 5000,
        t.throttle >= -150,
    ensures
        t.acceleration == 0 ==> Train::spec_control_step(t) == t,
        t.acceleration > 0 ==> Train::spec_control_step(t).throttle <= t.throttle,
        t.acceleration < 0 ==> Train::spec_control_step(t).throttle >= t.throttle,
        t.acceleration > 0 && t.throttle > -150 ==> Train::spec_control_step(t).throttle
            < t.throttle,
        t.acceleration < 0 && t.throttle < 100 ==> Train::spec_control_step(t).throttle
            > t.throttle,
{
    let num = t.target_velocity * t.target_velocity - t.velocity * t.velocity;
    assert(num == 0);
    let den = 2 * (t.target_distance - 5000);
    assert(den != 0);
    assert(div_trunc(0, den) == 0);
}

} // verus!
