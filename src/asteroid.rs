use rand::Rng;
use vstd::prelude::*;

use crate::game::{App, AppView, Plugins};

use crate::math::{is_isqrt, isqrt, Vec3};
use crate::spaceship::default_heading;
use crate::world::{Acceleration, Bundle, Collider, Commands, Role, Transform, Velocity};

verus! {

/// Asteroid speed: a unit direction (scaled by 1000) times this gives
/// micro-units per second (5 units per second).
pub const VELOCITY_SCALAR: i64 = 5_000;
/// Asteroid acceleration: a unit direction (scaled by 1000) times this gives
/// milli-units per second squared (1 unit per second squared).
pub const ACCELERATION_SCALAR: i64 = 1;
/// Spawn region, in nano-units: x in -25..25, z in 0..25 units.
pub const SPAWN_RANGE_X_START: i64 = -25_000_000_000;
pub const SPAWN_RANGE_X_END: i64 = 25_000_000_000;
pub const SPAWN_RANGE_Z_START: i64 = 0;
pub const SPAWN_RANGE_Z_END: i64 = 25_000_000_000;
/// Random direction components are drawn from `-DIRECTION_RANGE..DIRECTION_RANGE`.
pub const DIRECTION_RANGE: i64 = 1_000_000;
/// One asteroid per second.
pub const SPAWN_TIME_MILLIS: u32 = 1_000;
pub const ASTEROID_RADIUS: u64 = 2_500_000_000;

/// A repeating timer counted in milliseconds.
#[derive(Clone, Copy, Debug, PartialEq, Eq, Structural)]
pub struct SpawnTimer {
    pub duration_ms: u32,
    pub elapsed_ms: u32,
}

impl SpawnTimer {
    pub open spec fn wf(self) -> bool {
        0 < self.duration_ms && self.elapsed_ms < self.duration_ms
    }

    /// The timer after `dt` more milliseconds, and whether it finished in them.
    pub open spec fn tick_spec(self, dt: int) -> (SpawnTimer, bool) {
        let t = self.elapsed_ms + dt;
        if t >= self.duration_ms {
            (SpawnTimer { elapsed_ms: (t % self.duration_ms as int) as u32, ..self }, true)
        } else {
            (SpawnTimer { elapsed_ms: t as u32, ..self }, false)
        }
    }

    pub fn from_millis(duration_ms: u32) -> (r: SpawnTimer)
        requires
            duration_ms > 0,
        ensures
            r == (SpawnTimer { duration_ms, elapsed_ms: 0 }),
            r.wf(),
    {
        SpawnTimer { duration_ms, elapsed_ms: 0 }
    }

    /// Advances the timer; on finishing it starts over with the remainder.
    pub fn tick(&mut self, dt_ms: u32) -> (fired: bool)
        requires
            old(self).wf(),
        ensures
            (*final(self), fired) == old(self).tick_spec(dt_ms as int),
            final(self).wf(),
    {
        let t: u64 = self.elapsed_ms as u64 + dt_ms as u64;
        if t >= self.duration_ms as u64 {
            self.elapsed_ms = (t % self.duration_ms as u64) as u32;
            true
        } else {
            self.elapsed_ms = t as u32;
            false
        }
    }
}

/// The random numbers behind one asteroid: position and two directions.
#[derive(Clone, Copy, Debug, PartialEq, Eq, Structural)]
pub struct AsteroidDraw {
    pub x: i64,
    pub z: i64,
    pub vx: i64,
    pub vz: i64,
    pub ax: i64,
    pub az: i64,
}

/// Relies on `rand::thread_rng` and `rand::Rng::gen_range`: a value drawn from
/// the half-open range `lo..hi`, which must not be empty.
#[verifier::external_body]
fn random_in(lo: i64, hi: i64) -> (r: i64)
    requires
        lo < hi,
    ensures
        lo <= r < hi,
{
    rand::thread_rng().gen_range(lo..hi)
}

impl AsteroidDraw {
    pub open spec fn in_range(self) -> bool {
        &&& SPAWN_RANGE_X_START <= self.x < SPAWN_RANGE_X_END
        &&& SPAWN_RANGE_Z_START <= self.z < SPAWN_RANGE_Z_END
        &&& -DIRECTION_RANGE <= self.vx < DIRECTION_RANGE
        &&& -DIRECTION_RANGE <= self.vz < DIRECTION_RANGE
        &&& -DIRECTION_RANGE <= self.ax < DIRECTION_RANGE
        &&& -DIRECTION_RANGE <= self.az < DIRECTION_RANGE
    }

    /// Draws a position in the spawn region and two random directions.
    pub fn random() -> (d: AsteroidDraw)
        ensures
            d.in_range(),
    {
        let x = random_in(SPAWN_RANGE_X_START, SPAWN_RANGE_X_END);
        let z = random_in(SPAWN_RANGE_Z_START, SPAWN_RANGE_Z_END);
        let vx = random_in(-DIRECTION_RANGE, DIRECTION_RANGE);
        let vz = random_in(-DIRECTION_RANGE, DIRECTION_RANGE);
        let ax = random_in(-DIRECTION_RANGE, DIRECTION_RANGE);
        let az = random_in(-DIRECTION_RANGE, DIRECTION_RANGE);
        AsteroidDraw { x, z, vx, vz, ax, az }
    }
}

/// The integer square root of `n`.
pub open spec fn isqrt_spec(n: int) -> int {
    choose|r: int| is_isqrt(n, r)
}

/// Component `c` of a vector of length `len`, normalised to 1000; zero for a zero vector.
pub open spec fn unit_component(c: int, len: int) -> int {
    if len == 0 {
        0
    } else if c < 0 {
        -((-c) * 1000 / len)
    } else {
        c * 1000 / len
    }
}

/// The horizontal direction of `(a, 0, b)`, normalised to 1000 and scaled by `scale`.
pub open spec fn direction(a: int, b: int, scale: int) -> Vec3 {
    let len = isqrt_spec(a * a + b * b);
    Vec3 {
        x: (unit_component(a, len) * scale) as i64,
        y: 0,
        z: (unit_component(b, len) * scale) as i64,
    }
}

pub open spec fn asteroid_bundle(d: AsteroidDraw) -> Bundle {
    Bundle {
        role: Role::Asteroid,
        transform: Transform { translation: Vec3 { x: d.x, y: 0, z: d.z }, heading: default_heading() },
        velocity: Some(Velocity { value: direction(d.vx as int, d.vz as int, VELOCITY_SCALAR as int) }),
        acceleration: Some(
            Acceleration { value: direction(d.ax as int, d.az as int, ACCELERATION_SCALAR as int) },
        ),
        collider: Some(Collider { radius: ASTEROID_RADIUS }),
        health: None,
        damage: None,
    }
}

proof fn lemma_isqrt_unique(n: int, r1: int, r2: int)
    requires
        is_isqrt(n, r1),
        is_isqrt(n, r2),
    ensures
        r1 == r2,
{
    if r1 < r2 {
        assert((r1 + 1) * (r1 + 1) <= r2 * r2) by (nonlinear_arith)
            requires 0 <= r1, r1 + 1 <= r2;
    } else if r2 < r1 {
        assert((r2 + 1) * (r2 + 1) <= r1 * r1) by (nonlinear_arith)
            requires 0 <= r2, r2 + 1 <= r1;
    }
}

proof fn lemma_below_next_square(x: int, l: int)
    requires
        l >= 0,
        x * x < (l + 1) * (l + 1),
    ensures
        x * x <= l * l,
{
    let m = if x < 0 { -x } else { x };
    assert(m * m == x * x) by (nonlinear_arith)
        requires m == x || m == -x;
    if m > l {
        assert((l + 1) * (l + 1) <= m * m) by (nonlinear_arith)
            requires l + 1 <= m, l >= 0;
    } else {
        assert(m * m <= l * l) by (nonlinear_arith)
            requires 0 <= m <= l;
    }
}

fn unit_component_exec(c: i64, len: u64) -> (r: i64)
    requires
        -DIRECTION_RANGE <= c <= DIRECTION_RANGE,
        c * c <= len * len,
    ensures
        r == unit_component(c as int, len as int),
        -1000 <= r <= 1000,
{
    if len == 0 {
        return 0;
    }
    let m: u64 = if c < 0 { (-c) as u64 } else { c as u64 };
    proof {
        assert(m * m <= len * len) by (nonlinear_arith)
            requires m == c || m == -c, c * c <= len * len;
        assert(m <= len) by (nonlinear_arith)
            requires m * m <= len * len, m >= 0, len > 0;
        let mi = m as int;
        let li = len as int;
        assert(mi * 1000 <= li * 1000) by (nonlinear_arith)
            requires mi <= li;
        assert((mi * 1000) / li <= (li * 1000) / li) by (nonlinear_arith)
            requires mi * 1000 <= li * 1000, li > 0;
        assert((li * 1000) / li == 1000) by (nonlinear_arith)
            requires li > 0;
    }
    let q: u64 = m * 1000 / len;
    if c < 0 {
        -(q as i64)
    } else {
        q as i64
    }
}

/// The horizontal direction of `(a, 0, b)` normalised to 1000, times `scale`.
fn direction_exec(a: i64, b: i64, scale: i64) -> (v: Vec3)
    requires
        -DIRECTION_RANGE <= a <= DIRECTION_RANGE,
        -DIRECTION_RANGE <= b <= DIRECTION_RANGE,
        0 <= scale <= VELOCITY_SCALAR,
    ensures
        v == direction(a as int, b as int, scale as int),
{
    proof {
        assert(0 <= a * a <= 1_000_000_000_000) by (nonlinear_arith)
            requires -1_000_000 <= a <= 1_000_000;
        assert(0 <= b * b <= 1_000_000_000_000) by (nonlinear_arith)
            requires -1_000_000 <= b <= 1_000_000;
    }
    let n: u64 = (a * a + b * b) as u64;
    let len = isqrt(n);
    proof {
        let l = len as int;
        lemma_isqrt_unique(n as int, isqrt_spec(n as int), l);
        lemma_below_next_square(a as int, l);
        lemma_below_next_square(b as int, l);
    }
    let ux = unit_component_exec(a, len);
    let uz = unit_component_exec(b, len);
    proof {
        assert(-5_000_000 <= ux * scale <= 5_000_000) by (nonlinear_arith)
            requires -1000 <= ux <= 1000, 0 <= scale <= 5_000;
        assert(-5_000_000 <= uz * scale <= 5_000_000) by (nonlinear_arith)
            requires -1000 <= uz <= 1000, 0 <= scale <= 5_000;
    }
    Vec3 { x: ux * scale, y: 0, z: uz * scale }
}

/// The asteroid that a draw describes: at the drawn position, moving and
/// accelerating along the drawn horizontal directions.
pub fn asteroid_from(draw: &AsteroidDraw) -> (b: Bundle)
    requires
        draw.in_range(),
    ensures
        b == asteroid_bundle(*draw),
{
    Bundle {
        role: Role::Asteroid,
        transform: Transform {
            translation: Vec3::new(draw.x, 0, draw.z),
            heading: Vec3::new(0, 0, 1_000),
        },
        velocity: Some(Velocity::new(direction_exec(draw.vx, draw.vz, VELOCITY_SCALAR))),
        acceleration: Some(Acceleration::new(direction_exec(draw.ax, draw.az, ACCELERATION_SCALAR))),
        collider: Some(Collider::new(ASTEROID_RADIUS)),
        health: None,
        damage: None,
    }
}

/// Ticks the spawn timer and, when it finishes, queues the asteroid of `draw`.
pub fn spawn_asteroid(
    spawn_timer: &mut SpawnTimer,
    dt_ms: u32,
    draw: &AsteroidDraw,
    commands: &mut Commands,
)
    requires
        old(spawn_timer).wf(),
        draw.in_range(),
    ensures
        *final(spawn_timer) == old(spawn_timer).tick_spec(dt_ms as int).0,
        final(spawn_timer).wf(),
        final(commands).spawns@ == (if old(spawn_timer).tick_spec(dt_ms as int).1 {
            old(commands).spawns@.push(asteroid_bundle(*draw))
        } else {
            old(commands).spawns@
        }),
        final(commands).despawns@ == old(commands).despawns@,
        final(commands).shields@ == old(commands).shields@,
{
    if spawn_timer.tick(dt_ms) {
        commands.spawn(asteroid_from(draw));
    }
}

/// Installs the asteroid spawner, with a timer that finishes once a second.
pub struct AsteroidPlugin;

impl AsteroidPlugin {
    pub fn build(&self, app: &mut App)
        requires
            old(app)@.wf(),
        ensures
            final(app)@ == (AppView {
                plugins: Plugins { asteroid: true, ..old(app)@.plugins },
                spawn_timer: SpawnTimer { duration_ms: SPAWN_TIME_MILLIS, elapsed_ms: 0 },
                ..old(app)@
            }),
            final(app)@.wf(),
    {
        app.spawn_timer = SpawnTimer::from_millis(SPAWN_TIME_MILLIS);
        app.plugins.asteroid = true;
    }
}

} // verus!
