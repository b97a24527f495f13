use vstd::prelude::*;
use vstd::arithmetic::power2::{pow2, lemma2_to64, lemma_pow2_adds};
use vstd::arithmetic::div_mod::{lemma_fundamental_div_mod, lemma_mod_pos_bound};

verus! {

/// Mass of each galaxy core, in kilograms.
pub const CORE_MASS: u128 = 1_000_000_000_000_000_000_000_000_000_000;

/// Particles in each disk.
pub const DISK_PARTICLES: u32 = 10_000;

/// Innermost orbit of a disk particle, in meters.
pub const MIN_ORBIT: u64 = 400_000_000;

/// Width of the band of orbits, in meters.
pub const ORBIT_SPREAD: u64 = 3_000_000_000;

/// A draw is a fraction `k / DRAW_SCALE` of the unit interval, with `k < DRAW_SCALE`.
pub const DRAW_SCALE: u32 = 16_777_216;

/// The gravitational constant is `GRAVITY_NUMERATOR / GRAVITY_DENOMINATOR`
/// m³ kg⁻¹ s⁻², that is 6.67408e-11.
pub const GRAVITY_NUMERATOR: u128 = 667_408;

pub const GRAVITY_DENOMINATOR: u128 = 10_000_000_000_000_000;

/// Widest orbit, in meters, for which an orbital speed is computed.
pub const MAX_ORBIT_RADIUS: u64 = 10_000_000_000_000_000;

/// Most fractional bits that an orbital speed carries.
pub const MAX_SPEED_SHIFT: u32 = 100;

/// Least mantissa of a nonzero orbital speed: 24 significant bits, as binary32 has.
pub const MIN_SPEED_MANTISSA: u64 = 16_777_216;

/// A massive body with integral position (m), velocity (m/s) and mass (kg).
#[derive(Clone, Copy, Debug, PartialEq)]
pub struct Body {
    pub position: [i64; 3],
    pub velocity: [i64; 3],
    pub mass: u128,
}

/// A speed of `mantissa / 2^shift` m/s.
#[derive(Clone, Copy, Debug, PartialEq)]
pub struct OrbitalSpeed {
    pub mantissa: u64,
    pub shift: u32,
}

/// A disk particle relative to its core: the distance from the core (m), the
/// angle as the fraction `angle / DRAW_SCALE` of a full turn, and the speed
/// of its circular orbit.
#[derive(Clone, Copy, Debug, PartialEq)]
pub struct DiskSample {
    pub radius: u64,
    pub angle: u32,
    pub speed: OrbitalSpeed,
}

/// `r` is the square root of `n`, rounded down.
pub open spec fn is_floor_sqrt(r: int, n: int) -> bool {
    0 <= r && r * r <= n && n < (r + 1) * (r + 1)
}

/// `v` is `sqrt(G * mass / radius)` rounded down to a multiple of
/// `2^-v.shift`, stated over the exact rational quotient: the mantissa is the
/// floor of the square root of `G * mass / radius * 4^shift`.
pub open spec fn is_orbital_speed(v: OrbitalSpeed, mass: int, radius: int) -> bool {
    let m = v.mantissa as int;
    let scale = pow2(2 * v.shift as nat) as int;
    m * m * (GRAVITY_DENOMINATOR * radius) <= GRAVITY_NUMERATOR * mass * scale
        && GRAVITY_NUMERATOR * mass * scale < (m + 1) * (m + 1) * (GRAVITY_DENOMINATOR * radius)
}

/// The speed carries 24 significant bits unless it is zero, which it is
/// exactly when the mass is.
pub open spec fn is_precise_speed(v: OrbitalSpeed, mass: int) -> bool {
    v.shift <= MAX_SPEED_SHIFT && (mass > 0 ==> v.mantissa >= MIN_SPEED_MANTISSA)
        && (mass == 0 ==> v.mantissa == 0 && v.shift == 0)
}

/// The exact square `G * mass / radius * 4^shift` lies in
/// `[m², m² · (1 + 3 · 2^-24))` for the mantissa `m`.
pub open spec fn is_within_relative_error(v: OrbitalSpeed, mass: int, radius: int) -> bool {
    let m = v.mantissa as int;
    let exact = GRAVITY_NUMERATOR * mass * pow2(2 * v.shift as nat);
    let b = GRAVITY_DENOMINATOR * radius;
    m * m * b <= exact && exact * 16_777_216 < m * m * b * 16_777_219
}

/// A speed with 24 significant bits lies within a relative `1.5 · 2^-24`
/// (below 1e-7) under the exact `sqrt(G * mass / radius)`: the exact square
/// exceeds the square of `mantissa / 2^shift` by less than a relative
/// `3 · 2^-24`.
pub proof fn lemma_orbital_speed_relative_error(v: OrbitalSpeed, mass: int, radius: int)
    requires
        is_orbital_speed(v, mass, radius),
        v.mantissa >= MIN_SPEED_MANTISSA,
        radius > 0,
    ensures
        is_within_relative_error(v, mass, radius),
{
    let m = v.mantissa as int;
    let exact = GRAVITY_NUMERATOR * mass * pow2(2 * v.shift as nat);
    let b = GRAVITY_DENOMINATOR * radius;
    assert((m + 1) * (m + 1) * 16_777_216 <= m * m * 16_777_219) by (nonlinear_arith)
        requires
            m >= 16_777_216,
    ;
    assert(exact * 16_777_216 < m * m * b * 16_777_219) by (nonlinear_arith)
        requires
            exact < (m + 1) * (m + 1) * b,
            (m + 1) * (m + 1) * 16_777_216 <= m * m * 16_777_219,
            b > 0,
    ;
}

/// `MIN_ORBIT + u² · ORBIT_SPREAD` for `u = k / DRAW_SCALE`, rounded down.
pub open spec fn disk_radius_of(k: int) -> int {
    MIN_ORBIT + (k * k * ORBIT_SPREAD) / (DRAW_SCALE as int * DRAW_SCALE as int)
}

/// What holds of every particle that the disk generator produces.
pub open spec fn is_disk_sample(s: DiskSample, center_mass: int) -> bool {
    MIN_ORBIT <= s.radius <= MIN_ORBIT + ORBIT_SPREAD && s.angle < DRAW_SCALE
        && is_orbital_speed(s.speed, center_mass, s.radius as int)
        && is_precise_speed(s.speed, center_mass)
        && (center_mass > 0 ==> is_within_relative_error(s.speed, center_mass, s.radius as int))
}

/// The square root of `n`, rounded down.
pub fn isqrt(n: u128) -> (r: u64)
    ensures
        is_floor_sqrt(r as int, n as int),
{
    let mut lo: u128 = 0;
    let mut hi: u128 = 18_446_744_073_709_551_616;
    assert(n < hi * hi) by (nonlinear_arith)
        requires
            hi == 18_446_744_073_709_551_616u128,
            n <= u128::MAX,
    ;
    while hi - lo > 1
        invariant
            lo < hi <= 18_446_744_073_709_551_616u128,
            lo * lo <= n,
            n < hi * hi,
        decreases hi - lo,
    {
        let mid: u128 = lo + (hi - lo) / 2;
        assert(mid * mid <= u128::MAX) by (nonlinear_arith)
            requires
                mid < 18_446_744_073_709_551_616u128,
        ;
        if mid * mid <= n {
            lo = mid;
        } else {
            hi = mid;
        }
    }
    assert(hi == lo + 1);
    lo as u64
}

/// Distance from the core for the draw `k`: draws near zero, made more
/// likely by the squaring, give a disk that is dense at its center.
pub fn disk_radius(k: u32) -> (r: u64)
    requires
        k < DRAW_SCALE,
    ensures
        r == disk_radius_of(k as int),
        MIN_ORBIT <= r < MIN_ORBIT + ORBIT_SPREAD,
{
    assert((k as int) * (k as int) < 281_474_976_710_656) by (nonlinear_arith)
        requires
            k < 16_777_216,
    ;
    let kk: u128 = (k as u128) * (k as u128);
    let offset: u128 = kk * (ORBIT_SPREAD as u128) / 281_474_976_710_656;
    assert(offset < ORBIT_SPREAD) by (nonlinear_arith)
        requires
            kk < 281_474_976_710_656,
            offset == kk * 3_000_000_000 / 281_474_976_710_656,
    ;
    MIN_ORBIT + offset as u64
}

/// Speed of a circular orbit at `radius` meters around `center_mass`
/// kilograms, `sqrt(G * center_mass / radius)`, rounded down to 24
/// significant bits.
pub fn orbital_speed(center_mass: u128, radius: u64) -> (v: OrbitalSpeed)
    requires
        0 < radius <= MAX_ORBIT_RADIUS,
    ensures
        is_orbital_speed(v, center_mass as int, radius as int),
        is_precise_speed(v, center_mass as int),
        center_mass > 0 ==> is_within_relative_error(v, center_mass as int, radius as int),
{
    let ghost a = GRAVITY_NUMERATOR * center_mass;
    let b: u128 = GRAVITY_DENOMINATOR * (radius as u128);
    // G * M / b split as N * (M / b) + N * (M % b) / b, which keeps every
    // product in range for any mass.
    let whole: u128 = center_mass / b;
    let part: u128 = center_mass % b;
    proof {
        lemma_fundamental_div_mod(center_mass as int, b as int);
        lemma_mod_pos_bound(center_mass as int, b as int);
        assert(whole * b <= center_mass) by (nonlinear_arith)
            requires
                center_mass as int == b * whole + part,
                part >= 0,
        ;
        assert(whole <= 34_028_236_692_093_846_346_338) by (nonlinear_arith)
            requires
                whole * b <= center_mass,
                b >= 10_000_000_000_000_000,
                center_mass <= u128::MAX,
        ;
        assert(GRAVITY_NUMERATOR * part < GRAVITY_NUMERATOR * b) by (nonlinear_arith)
            requires
                part < b,
        ;
    }
    let scaled_part: u128 = GRAVITY_NUMERATOR * part;
    let mut q: u128 = GRAVITY_NUMERATOR * whole + scaled_part / b;
    let mut rem: u128 = scaled_part % b;
    let mut shift: u32 = 0;
    proof {
        lemma_fundamental_div_mod(scaled_part as int, b as int);
        lemma_mod_pos_bound(scaled_part as int, b as int);
        lemma2_to64();
        assert(q * b + rem == a * pow2(0)) by (nonlinear_arith)
            requires
                center_mass as int == b * whole + part,
                scaled_part as int == b * (scaled_part / b) + rem,
                q == GRAVITY_NUMERATOR * whole + scaled_part / b,
                scaled_part == GRAVITY_NUMERATOR * part,
                a == GRAVITY_NUMERATOR * center_mass,
                pow2(0) == 1,
        ;
    }
    if center_mass > 0 {
        while q < 281_474_976_710_656 && shift < MAX_SPEED_SHIFT
            invariant
                0 < b <= 100_000_000_000_000_000_000_000_000_000_000,
                rem < b,
                shift <= MAX_SPEED_SHIFT,
                q * b + rem == a * pow2(2 * shift as nat),
            decreases MAX_SPEED_SHIFT - shift,
        {
            let four_rem: u128 = 4 * rem;
            let ghost old_q = q;
            let ghost old_rem = rem;
            q = 4 * q + four_rem / b;
            rem = four_rem % b;
            proof {
                lemma_fundamental_div_mod(four_rem as int, b as int);
                lemma_mod_pos_bound(four_rem as int, b as int);
                lemma_pow2_adds(2 * shift as nat, 2);
                lemma2_to64();
                let p = pow2(2 * shift as nat) as int;
                assert(q * b + rem == a * (p * 4)) by (nonlinear_arith)
                    requires
                        old_q * b + old_rem == a * p,
                        four_rem == 4 * old_rem,
                        four_rem as int == b * (four_rem / b) + rem,
                        q == 4 * old_q + four_rem / b,
                ;
                assert(2 * shift as nat + 2 == 2 * (shift + 1) as nat);
            }
            shift = shift + 1;
        }
        proof {
            if q < 281_474_976_710_656 {
                lemma2_to64();
                lemma_pow2_adds(64, 64);
                lemma_pow2_adds(128, 64);
                lemma_pow2_adds(192, 8);
                assert(pow2(200) == pow2(192) * pow2(8));
                assert(a >= 1) by (nonlinear_arith)
                    requires
                        a == GRAVITY_NUMERATOR * center_mass,
                        center_mass >= 1,
                ;
                assert(false) by (nonlinear_arith)
                    requires
                        q < 281_474_976_710_656,
                        b <= 100_000_000_000_000_000_000_000_000_000_000,
                        rem < b,
                        q * b + rem == a * pow2(200),
                        pow2(200) == pow2(192) * pow2(8),
                        pow2(192) == pow2(128) * pow2(64),
                        pow2(128) == pow2(64) * pow2(64),
                        pow2(64) == 0x10000000000000000,
                        pow2(8) == 256,
                        a >= 1,
                ;
            }
        }
    }
    let m = isqrt(q);
    let v = OrbitalSpeed { mantissa: m, shift };
    proof {
        let mi = m as int;
        let p = pow2(2 * shift as nat) as int;
        assert(mi * mi * b <= a * p) by (nonlinear_arith)
            requires
                mi * mi <= q,
                q * b + rem == a * p,
                rem >= 0,
                b > 0,
        ;
        assert(a * p < (mi + 1) * (mi + 1) * b) by (nonlinear_arith)
            requires
                q < (mi + 1) * (mi + 1),
                q * b + rem == a * p,
                rem < b,
                b > 0,
        ;
        if center_mass > 0 {
            assert(mi >= 16_777_216) by (nonlinear_arith)
                requires
                    q >= 281_474_976_710_656,
                    q < (mi + 1) * (mi + 1),
                    mi >= 0,
            ;
            lemma_orbital_speed_relative_error(v, center_mass as int, radius as int);
        } else {
            assert(q == 0) by (nonlinear_arith)
                requires
                    q * b + rem == 0,
                    rem >= 0,
                    b > 0,
                    q >= 0,
            ;
            assert(mi == 0) by (nonlinear_arith)
                requires
                    mi * mi <= q,
                    q == 0,
                    mi >= 0,
            ;
        }
    }
    v
}

/// The disk particle for the draws `radius_draw` and `angle_draw`.
pub fn disk_sample(center_mass: u128, radius_draw: u32, angle_draw: u32) -> (r: DiskSample)
    requires
        radius_draw < DRAW_SCALE,
        angle_draw < DRAW_SCALE,
    ensures
        r.radius == disk_radius_of(radius_draw as int),
        r.angle == angle_draw,
        is_orbital_speed(r.speed, center_mass as int, r.radius as int),
        is_precise_speed(r.speed, center_mass as int),
        center_mass > 0 ==> is_within_relative_error(r.speed, center_mass as int, r.radius as int),
        is_disk_sample(r, center_mass as int),
{
    let radius = disk_radius(radius_draw);
    let speed = orbital_speed(center_mass, radius);
    DiskSample { radius, angle: angle_draw, speed }
}

/// Relies on rand::random::<u32>, which returns `thread_rng().next_u32()`;
/// nothing is promised of the value.
#[verifier::external_body]
fn random_word() -> (r: u32) {
    rand::random::<u32>()
}

/// A uniform draw from the unit interval, as the numerator over `DRAW_SCALE`:
/// the top 24 bits of a random word, as rand's own 32-bit float draws take them.
fn unit_draw() -> (r: u32)
    ensures
        r < DRAW_SCALE,
{
    random_word() / 256
}

/// `count` particles orbiting a core of mass `center_mass`, each from fresh
/// random draws: no two runs give the same disk.
pub fn generate_disk(center_mass: u128, count: u32) -> (r: Vec<DiskSample>)
    ensures
        r@.len() == count,
        forall|i: int| 0 <= i < r@.len() ==> is_disk_sample(#[trigger] r@[i], center_mass as int),
{
    let mut out: Vec<DiskSample> = Vec::new();
    let mut i: u32 = 0;
    while i < count
        invariant
            i <= count,
            out@.len() == i,
            forall|j: int| 0 <= j < out@.len() ==> is_disk_sample(#[trigger] out@[j], center_mass as int),
        decreases count - i,
    {
        let radius_draw = unit_draw();
        let angle_draw = unit_draw();
        out.push(disk_sample(center_mass, radius_draw, angle_draw));
        i = i + 1;
    }
    out
}

/// The two cores: equal masses on opposite sides of the origin, drifting
/// towards a collision along the third axis.
pub fn galaxy_cores() -> (r: (Body, Body))
    ensures
        r.0.position@ == seq![0i64, 1_500_000_000, 2_000_000_000],
        r.0.velocity@ == seq![0i64, 0, -50_000i64],
        r.1.position@ == seq![0i64, -1_500_000_000i64, -2_000_000_000i64],
        r.1.velocity@ == seq![0i64, 0, 50_000],
        r.0.mass == CORE_MASS,
        r.1.mass == CORE_MASS,
{
    let first = Body {
        position: [0i64, 1_500_000_000, 2_000_000_000],
        velocity: [0i64, 0, -50_000i64],
        mass: CORE_MASS,
    };
    let second = Body {
        position: [0i64, -1_500_000_000, -2_000_000_000],
        velocity: [0i64, 0, 50_000],
        mass: CORE_MASS,
    };
    assert(first.position@ =~= seq![0i64, 1_500_000_000, 2_000_000_000]);
    assert(first.velocity@ =~= seq![0i64, 0, -50_000i64]);
    assert(second.position@ =~= seq![0i64, -1_500_000_000i64, -2_000_000_000i64]);
    assert(second.velocity@ =~= seq![0i64, 0, 50_000]);
    (first, second)
}

/// Particles in the whole simulation: two cores and their two disks.
pub const PARTICLE_COUNT: u32 = 20_002;

/// The starting state: the two cores, and a disk around each. The first disk
/// orbits the first core and turns clockwise, the second orbits the second
/// core and turns counter-clockwise.
pub struct InitialConditions {
    pub cores: (Body, Body),
    pub clockwise_disk: Vec<DiskSample>,
    pub counter_clockwise_disk: Vec<DiskSample>,
}

/// Draws a fresh starting state.
pub fn generate_initial_conditions() -> (r: InitialConditions)
    ensures
        r.cores.0.position@ == seq![0i64, 1_500_000_000, 2_000_000_000],
        r.cores.0.velocity@ == seq![0i64, 0, -50_000i64],
        r.cores.1.position@ == seq![0i64, -1_500_000_000i64, -2_000_000_000i64],
        r.cores.1.velocity@ == seq![0i64, 0, 50_000],
        r.cores.0.mass == CORE_MASS && r.cores.1.mass == CORE_MASS,
        r.clockwise_disk@.len() == DISK_PARTICLES,
        r.counter_clockwise_disk@.len() == DISK_PARTICLES,
        2 + r.clockwise_disk@.len() + r.counter_clockwise_disk@.len() == PARTICLE_COUNT,
        forall|i: int|
            0 <= i < r.clockwise_disk@.len() ==> is_disk_sample(
                #[trigger] r.clockwise_disk@[i],
                CORE_MASS as int,
            ),
        forall|i: int|
            0 <= i < r.counter_clockwise_disk@.len() ==> is_disk_sample(
                #[trigger] r.counter_clockwise_disk@[i],
                CORE_MASS as int,
            ),
{
    let cores = galaxy_cores();
    let clockwise_disk = generate_disk(cores.0.mass, DISK_PARTICLES);
    let counter_clockwise_disk = generate_disk(cores.1.mass, DISK_PARTICLES);
    InitialConditions { cores, clockwise_disk, counter_clockwise_disk }
}

} // verus!
