use vstd::prelude::*;
use vstd::arithmetic::power::pow;

verus! {

/// Positions and velocities are fixed-point numbers: this many units make
/// one texel of the terrain map.
pub const SUBTEXELS: i64 = 1_000_000;

/// Each update keeps `DAMPING_NUMER / DAMPING_DENOM` of the velocity.
pub const DAMPING_NUMER: i64 = 9;
pub const DAMPING_DENOM: i64 = 10;

/// A point or a velocity in three axes, in fixed-point map units.
#[derive(Clone, Copy, Debug, PartialEq, Eq, Structural)]
pub struct Vec3 {
    pub x: i64,
    pub y: i64,
    pub z: i64,
}

/// The directions held down during one input poll.
#[derive(Clone, Copy, Debug, PartialEq, Eq, Structural)]
pub struct Controls {
    /// Raises the velocity on z.
    pub forward: bool,
    /// Lowers the velocity on z.
    pub back: bool,
    /// Lowers the velocity on x.
    pub left: bool,
    /// Raises the velocity on x.
    pub right: bool,
    /// Lowers the velocity on y.
    pub up: bool,
    /// Raises the velocity on y.
    pub down: bool,
}

/// The viewer: where it stands, how it moves, and how far it sees.
///
/// `x` and `y` of `position` index the terrain map; `z` and the rotation are
/// carried as state but do not enter the projection. `far_clip` is in
/// texels, every other quantity in fixed-point units of `1 / SUBTEXELS`
/// texel (the rotation in milliradians).
#[derive(Clone, Copy, Debug, PartialEq, Eq, Structural)]
pub struct Camera {
    pub position: Vec3,
    pub velocity: Vec3,
    pub roll: i64,
    pub yaw: i64,
    pub far_clip: u32,
    pub acceleration: i64,
    pub max_speed: i64,
}

/// Caps `v` to `[-m, m]`.
pub open spec fn clamp_speed(v: int, m: int) -> int {
    if v > m {
        m
    } else if v < -m {
        -m
    } else {
        v
    }
}

/// `v` scaled by nine tenths, rounded toward zero.
pub open spec fn damp(v: int) -> int {
    if v >= 0 {
        v * (DAMPING_NUMER as int) / (DAMPING_DENOM as int)
    } else {
        -((-v) * (DAMPING_NUMER as int) / (DAMPING_DENOM as int))
    }
}

/// `v` held to the range of `i64`.
pub open spec fn saturate(v: int) -> i64 {
    if v > i64::MAX {
        i64::MAX
    } else if v < i64::MIN {
        i64::MIN
    } else {
        v as i64
    }
}

/// Velocity of one axis after an update: clamp, then damp.
pub open spec fn next_velocity(v: int, m: int) -> i64 {
    damp(clamp_speed(v, m)) as i64
}

/// The change that one poll of `c` makes to a velocity: `+a`, `-a` or none.
pub open spec fn push(plus: bool, minus: bool, a: int) -> int {
    (if plus { a } else { 0 }) - (if minus { a } else { 0 })
}

impl Camera {
    /// Motion constants are not negative.
    pub open spec fn wf(&self) -> bool {
        self.acceleration >= 0 && self.max_speed >= 0
    }

    /// The camera after one update.
    pub open spec fn updated(self) -> Camera {
        let vx = next_velocity(self.velocity.x as int, self.max_speed as int);
        let vy = next_velocity(self.velocity.y as int, self.max_speed as int);
        let vz = next_velocity(self.velocity.z as int, self.max_speed as int);
        Camera {
            position: Vec3 {
                x: saturate(self.position.x + vx),
                y: saturate(self.position.y + vy),
                z: saturate(self.position.z + vz),
            },
            velocity: Vec3 { x: vx, y: vy, z: vz },
            ..self
        }
    }

    /// The camera after `n` updates with no input in between.
    pub open spec fn after_ticks(self, n: nat) -> Camera
        decreases n,
    {
        if n == 0 {
            self
        } else {
            self.after_ticks((n - 1) as nat).updated()
        }
    }

    /// The camera after one poll of `c`.
    pub open spec fn accelerated(self, c: Controls) -> Camera {
        let a = self.acceleration as int;
        Camera {
            velocity: Vec3 {
                x: saturate(self.velocity.x + push(c.right, c.left, a)),
                y: saturate(self.velocity.y + push(c.down, c.up, a)),
                z: saturate(self.velocity.z + push(c.forward, c.back, a)),
            },
            ..self
        }
    }

    /// A camera at rest over texel `(512, 512)`, seeing 400 texels far,
    /// gaining a quarter texel of speed per poll and capped at five texels.
    pub fn new() -> (r: Camera)
        ensures
            r.wf(),
            r.position.x == 512 * SUBTEXELS && r.position.y == 512 * SUBTEXELS && r.position.z == 0,
            r.velocity == (Vec3 { x: 0, y: 0, z: 0 }),
            r.roll == 0 && r.yaw == 0,
            r.far_clip == 400,
            r.acceleration == SUBTEXELS / 4,
            r.max_speed == 5 * SUBTEXELS,
    {
        Camera {
            position: Vec3 { x: 512 * SUBTEXELS, y: 512 * SUBTEXELS, z: 0 },
            velocity: Vec3 { x: 0, y: 0, z: 0 },
            roll: 0,
            yaw: 0,
            far_clip: 400,
            acceleration: SUBTEXELS / 4,
            max_speed: 5 * SUBTEXELS,
        }
    }

    /// Adds the acceleration to each velocity axis whose direction is held,
    /// and takes it away for each opposite direction held.
    pub fn accelerate(&mut self, c: Controls)
        requires
            old(self).wf(),
        ensures
            *final(self) == old(self).accelerated(c),
            final(self).wf(),
    {
        let a = self.acceleration;
        self.velocity.x = add_saturating(self.velocity.x, signed_push(c.right, c.left, a));
        self.velocity.y = add_saturating(self.velocity.y, signed_push(c.down, c.up, a));
        self.velocity.z = add_saturating(self.velocity.z, signed_push(c.forward, c.back, a));
    }

    /// One tick of motion: on each axis the velocity is clamped to
    /// `[-max_speed, max_speed]`, then damped to nine tenths (rounded toward
    /// zero), then added to the position. The clamp bounds both directions
    /// alike, so backward motion is capped like forward motion.
    pub fn update(&mut self)
        requires
            old(self).wf(),
        ensures
            *final(self) == old(self).updated(),
            final(self).wf(),
            -final(self).max_speed <= final(self).velocity.x <= final(self).max_speed,
            -final(self).max_speed <= final(self).velocity.y <= final(self).max_speed,
            -final(self).max_speed <= final(self).velocity.z <= final(self).max_speed,
    {
        let m = self.max_speed;
        let (px, vx) = step_axis(self.position.x, self.velocity.x, m);
        let (py, vy) = step_axis(self.position.y, self.velocity.y, m);
        let (pz, vz) = step_axis(self.position.z, self.velocity.z, m);
        self.position = Vec3 { x: px, y: py, z: pz };
        self.velocity = Vec3 { x: vx, y: vy, z: vz };
    }
}

/// `push(plus, minus, a)` as an integer.
fn signed_push(plus: bool, minus: bool, a: i64) -> (r: i64)
    requires
        a >= 0,
    ensures
        r == push(plus, minus, a as int),
{
    let up: i64 = if plus { a } else { 0 };
    let down: i64 = if minus { a } else { 0 };
    up - down
}

/// `a + b`, held to the range of `i64`.
fn add_saturating(a: i64, b: i64) -> (r: i64)
    ensures
        r == saturate(a + b),
{
    let s: i128 = a as i128 + b as i128;
    if s > i64::MAX as i128 {
        i64::MAX
    } else if s < i64::MIN as i128 {
        i64::MIN
    } else {
        s as i64
    }
}

/// One axis of an update: the new position and velocity.
fn step_axis(p: i64, v: i64, m: i64) -> (r: (i64, i64))
    requires
        m >= 0,
    ensures
        r.1 == next_velocity(v as int, m as int),
        r.0 == saturate(p + r.1),
        -m <= r.1 <= m,
{
    let c: i64 = if v > m {
        m
    } else if v < -m {
        -m
    } else {
        v
    };
    let mag: u128 = if c >= 0 { c as u128 } else { (-(c as i128)) as u128 };
    assert(mag <= m);
    let num: u128 = DAMPING_NUMER as u128;
    let den: u128 = DAMPING_DENOM as u128;
    assert(num == 9 && den == 10);
    let scaled: u128 = mag * num / den;
    assert(scaled <= mag);
    let d: i64 = if c >= 0 { scaled as i64 } else { -(scaled as i64) };
    (add_saturating(p, d), d)
}

/// Magnitude of `v`.
pub open spec fn magnitude(v: int) -> int {
    if v >= 0 {
        v
    } else {
        -v
    }
}

proof fn lemma_axis_damped(v: int, m: int)
    requires
        0 <= m <= i64::MAX,
    ensures
        magnitude(next_velocity(v, m) as int) * 10 <= 9 * magnitude(clamp_speed(v, m)),
        magnitude(clamp_speed(v, m)) <= magnitude(v),
        magnitude(clamp_speed(v, m)) <= m,
        v != 0 ==> magnitude(next_velocity(v, m) as int) < magnitude(v),
        v == 0 ==> next_velocity(v, m) == 0,
{
    let c = clamp_speed(v, m);
    let a = magnitude(c);
    assert(a * 9 / 10 * 10 <= 9 * a) by (nonlinear_arith)
        requires a >= 0;
    assert(a > 0 ==> a * 9 / 10 < a) by (nonlinear_arith);
    assert(0 <= a * 9 / 10 <= a) by (nonlinear_arith)
        requires a >= 0;
    assert(next_velocity(v, m) as int == damp(c));
}

impl Camera {
    /// With no input, each update keeps at most nine tenths of the speed on
    /// every axis: from speeds within `max_speed`, after `n` updates the
    /// speed on an axis is at most `9^n / 10^n` of what it was.
    pub proof fn lemma_damping_decay(self, n: nat)
        requires
            self.wf(),
            magnitude(self.velocity.x as int) <= self.max_speed,
            magnitude(self.velocity.y as int) <= self.max_speed,
            magnitude(self.velocity.z as int) <= self.max_speed,
        ensures
            magnitude(self.after_ticks(n).velocity.x as int) * pow(10, n)
                <= pow(9, n) * magnitude(self.velocity.x as int),
            magnitude(self.after_ticks(n).velocity.y as int) * pow(10, n)
                <= pow(9, n) * magnitude(self.velocity.y as int),
            magnitude(self.after_ticks(n).velocity.z as int) * pow(10, n)
                <= pow(9, n) * magnitude(self.velocity.z as int),
        decreases n,
    {
        reveal(pow);
        if n > 0 {
            let n1 = (n - 1) as nat;
            let m = self.max_speed as int;
            self.lemma_damping_decay(n1);
            self.lemma_ticks_keep_settings(n1);
            if n1 > 0 {
                self.lemma_ticks_bounded(n1);
            }
            let p = self.after_ticks(n1);
            lemma_decay_step(p.velocity.x as int, m, magnitude(self.velocity.x as int), n1);
            lemma_decay_step(p.velocity.y as int, m, magnitude(self.velocity.y as int), n1);
            lemma_decay_step(p.velocity.z as int, m, magnitude(self.velocity.z as int), n1);
        }
    }

    /// Updates change neither the motion constants nor the far clip.
    pub proof fn lemma_ticks_keep_settings(self, n: nat)
        ensures
            self.after_ticks(n).max_speed == self.max_speed,
            self.after_ticks(n).acceleration == self.acceleration,
            self.after_ticks(n).far_clip == self.far_clip,
        decreases n,
    {
        if n > 0 {
            self.lemma_ticks_keep_settings((n - 1) as nat);
        }
    }

    /// After at least one update every velocity axis lies in
    /// `[-max_speed, max_speed]`.
    pub proof fn lemma_ticks_bounded(self, n: nat)
        requires
            self.wf(),
            n > 0,
        ensures
            magnitude(self.after_ticks(n).velocity.x as int) <= self.max_speed,
            magnitude(self.after_ticks(n).velocity.y as int) <= self.max_speed,
            magnitude(self.after_ticks(n).velocity.z as int) <= self.max_speed,
    {
        let n1 = (n - 1) as nat;
        self.lemma_ticks_keep_settings(n1);
        let p = self.after_ticks(n1);
        let m = self.max_speed as int;
        lemma_axis_damped(p.velocity.x as int, m);
        lemma_axis_damped(p.velocity.y as int, m);
        lemma_axis_damped(p.velocity.z as int, m);
    }

    /// With no input the camera comes to rest: after as many updates as the
    /// largest speed on an axis (in fixed-point units) the velocity is zero,
    /// and every further update leaves the camera as it is.
    pub proof fn lemma_comes_to_rest(self, n: nat)
        requires
            self.wf(),
            n >= magnitude(self.velocity.x as int),
            n >= magnitude(self.velocity.y as int),
            n >= magnitude(self.velocity.z as int),
        ensures
            self.after_ticks(n).velocity == (Vec3 { x: 0, y: 0, z: 0 }),
            self.after_ticks(n + 1) == self.after_ticks(n),
    {
        self.lemma_slows_down(n);
        let p = self.after_ticks(n);
        assert(p.updated() == p);
    }

    /// Each update without input lowers the speed on a moving axis by at least
    /// one fixed-point unit.
    proof fn lemma_slows_down(self, n: nat)
        requires
            self.wf(),
        ensures
            magnitude(self.after_ticks(n).velocity.x as int) <= vstd::math::max(0, magnitude(self.velocity.x as int) - n),
            magnitude(self.after_ticks(n).velocity.y as int) <= vstd::math::max(0, magnitude(self.velocity.y as int) - n),
            magnitude(self.after_ticks(n).velocity.z as int) <= vstd::math::max(0, magnitude(self.velocity.z as int) - n),
        decreases n,
    {
        if n > 0 {
            let n1 = (n - 1) as nat;
            self.lemma_slows_down(n1);
            self.lemma_ticks_keep_settings(n1);
            let p = self.after_ticks(n1);
            let m = self.max_speed as int;
            lemma_axis_damped(p.velocity.x as int, m);
            lemma_axis_damped(p.velocity.y as int, m);
            lemma_axis_damped(p.velocity.z as int, m);
        }
    }
}

/// Velocity on an axis after one tick in which its key is held: the
/// acceleration is added, then the update clamps and damps.
pub open spec fn held_velocity(v: int, a: int, m: int) -> int {
    next_velocity(saturate(v + a) as int, m) as int
}

proof fn lemma_held_step(v: int, w: int, a: int, m: int)
    requires
        0 <= v <= w <= i64::MAX,
        0 <= a <= i64::MAX,
        0 <= m <= i64::MAX,
    ensures
        0 <= held_velocity(v, a, m) <= held_velocity(w, a, m),
        held_velocity(w, a, m) * 10 <= 9 * m,
        w <= 9 * a ==> held_velocity(w, a, m) <= 9 * a,
{
    let u1 = clamp_speed(saturate(v + a) as int, m);
    let u2 = clamp_speed(saturate(w + a) as int, m);
    assert(0 <= u1 <= u2 <= m);
    assert(w <= 9 * a ==> u2 <= 10 * a);
    assert(u1 * 9 / 10 <= u2 * 9 / 10) by (nonlinear_arith)
        requires 0 <= u1 <= u2;
    assert(u2 * 9 / 10 * 10 <= 9 * u2) by (nonlinear_arith)
        requires 0 <= u2;
    assert(u2 <= 10 * a ==> u2 * 9 / 10 <= 9 * a) by (nonlinear_arith)
        requires 0 <= u2;
    assert(0 <= u1 * 9 / 10) by (nonlinear_arith)
        requires 0 <= u1;
    lemma_axis_damped(saturate(v + a) as int, m);
    lemma_axis_damped(saturate(w + a) as int, m);
}

impl Camera {
    /// The camera after `n` ticks, in each of which `c` is polled once and
    /// then an update runs.
    pub open spec fn after_held(self, c: Controls, n: nat) -> Camera
        decreases n,
    {
        if n == 0 {
            self
        } else {
            self.after_held(c, (n - 1) as nat).accelerated(c).updated()
        }
    }

    /// Holding a key never makes the speed grow without bound: from rest on
    /// z, with forward held (and back not) every tick, the velocity on z
    /// never falls, and stays within nine tenths of both `max_speed` and
    /// ten times the acceleration.
    pub proof fn lemma_held_key(self, c: Controls, n: nat)
        requires
            self.wf(),
            self.velocity.z == 0,
            c.forward,
            !c.back,
        ensures
            self.after_held(c, n).max_speed == self.max_speed,
            self.after_held(c, n).acceleration == self.acceleration,
            0 <= self.after_held(c, n).velocity.z <= self.after_held(c, n + 1).velocity.z,
            self.after_held(c, n).velocity.z * 10 <= 9 * self.max_speed,
            self.after_held(c, n).velocity.z <= 9 * self.acceleration,
        decreases n,
    {
        let a = self.acceleration as int;
        let m = self.max_speed as int;
        if n == 0 {
            lemma_held_step(0, 0, a, m);
            assert(self.after_held(c, 1) == self.accelerated(c).updated());
        } else {
            let n1 = (n - 1) as nat;
            self.lemma_held_key(c, n1);
            let v = self.after_held(c, n1).velocity.z as int;
            let w = self.after_held(c, n).velocity.z as int;
            lemma_held_step(v, w, a, m);
            assert(self.after_held(c, n) == self.after_held(c, n1).accelerated(c).updated());
            assert(self.after_held(c, n + 1) == self.after_held(c, n).accelerated(c).updated());
            assert(w == held_velocity(v, a, m));
        }
    }
}

proof fn lemma_decay_step(v: int, m: int, a0: int, n1: nat)
    requires
        0 <= m <= i64::MAX,
        magnitude(v) <= m,
        magnitude(v) * pow(10, n1) <= pow(9, n1) * a0,
    ensures
        magnitude(next_velocity(v, m) as int) * pow(10, n1 + 1) <= pow(9, n1 + 1) * a0,
{
    lemma_axis_damped(v, m);
    let b = magnitude(next_velocity(v, m) as int);
    let c = magnitude(v);
    let n: nat = n1 + 1;
    let p10 = pow(10, n1);
    let p9 = pow(9, n1);
    vstd::arithmetic::power::lemma_pow_positive(10, n1);
    reveal(pow);
    assert(pow(10, n) == 10 * p10);
    assert(pow(9, n) == 9 * p9);
    assert(clamp_speed(v, m) == v);
    assert(b * (10 * p10) <= 9 * (p9 * a0)) by (nonlinear_arith)
        requires b * 10 <= 9 * c, c * p10 <= p9 * a0, p10 > 0, b >= 0;
    assert(b * pow(10, n) <= pow(9, n) * a0) by (nonlinear_arith)
        requires b * (10 * p10) <= 9 * (p9 * a0), pow(10, n) == 10 * p10, pow(9, n) == 9 * p9;
}

} // verus!
