use galaxy_sim::controls::{
    is_selectable_time_step, scroll_fly_speed, time_step_for_digit, Action, Controls, Event, Key, Movement, ScrollDelta,
    INITIAL_FLY_SPEED, MAX_FLY_SPEED, MIN_FLY_SPEED,
};
use galaxy_sim::generator::{
    disk_radius, disk_sample, galaxy_cores, generate_disk, generate_initial_conditions, isqrt,
    orbital_speed, OrbitalSpeed, CORE_MASS, DISK_PARTICLES, DRAW_SCALE, MIN_ORBIT, ORBIT_SPREAD, PARTICLE_COUNT,
};
use galaxy_sim::store::{frame_commands, Command, ParticleStore};
use galaxy_sim::wire::{
    encode_parameters, encode_particle, encode_particles, time_step_word, Particle,
    SharedParameters,
    PARAMETERS_SIZE, PARTICLE_STRIDE,
};

const SELECTABLE: [u32; 10] = [0, 10, 20, 40, 80, 160, 320, 640, 1280, 2560];

fn speed_matches(v: OrbitalSpeed, mass: u128, radius: u64) -> bool {
    let exact = (6.67408e-11f64 * mass as f64 / radius as f64).sqrt();
    let speed = v.mantissa as f64 / 2f64.powi(v.shift as i32);
    if mass == 0 {
        return v.mantissa == 0 && v.shift == 0;
    }
    v.mantissa >= 1 << 24 && speed <= exact * (1.0 + 1e-12) && exact - speed < 1e-7 * exact
}

#[test]
fn disk_radius_bounds_and_values() {
    assert_eq!(disk_radius(0), 400_000_000);
    assert_eq!(disk_radius(1 << 23), 1_150_000_000);
    assert_eq!(disk_radius(DRAW_SCALE - 1), 3_399_999_642);
}

#[test]
fn floor_square_roots() {
    assert_eq!(isqrt(0), 0);
    assert_eq!(isqrt(15), 3);
    assert_eq!(isqrt(16), 4);
    assert_eq!(isqrt(u128::MAX), u64::MAX);
}

#[test]
fn orbital_speed_matches_circular_orbit() {
    let v = orbital_speed(CORE_MASS, 400_000_000);
    assert_eq!(v, OrbitalSpeed { mantissa: 26_142_413, shift: 6 });
    assert!(speed_matches(v, CORE_MASS, 400_000_000));
    assert!(speed_matches(orbital_speed(CORE_MASS, 2_000_000_000), CORE_MASS, 2_000_000_000));
}

#[test]
fn orbital_speed_keeps_precision_for_light_centers() {
    let v = orbital_speed(100_000_000_000_000_000_000, 400_000_000);
    assert_eq!(v, OrbitalSpeed { mantissa: 17_132_692, shift: 22 });
    assert!(speed_matches(v, 100_000_000_000_000_000_000, 400_000_000));
    let tiny = orbital_speed(1, 3_400_000_000);
    assert_eq!(tiny, OrbitalSpeed { mantissa: 20_191_379, shift: 57 });
    assert!(speed_matches(tiny, 1, 3_400_000_000));
    assert_eq!(orbital_speed(0, 400_000_000), OrbitalSpeed { mantissa: 0, shift: 0 });
    assert_eq!(
        orbital_speed(u128::MAX, 1),
        OrbitalSpeed { mantissa: 150_700_754_457_955, shift: 0 }
    );
}

#[test]
fn innermost_disk_particle() {
    let s = disk_sample(CORE_MASS, 0, 0);
    assert_eq!(s.radius, 400_000_000);
    assert_eq!(s.angle, 0);
    assert_eq!(s.speed, OrbitalSpeed { mantissa: 26_142_413, shift: 6 });
    let exact = (6.67408e-11f64 * 1e30 / 4e8).sqrt();
    assert!((s.speed.mantissa as f64 / 64.0 - exact).abs() < 1e-7 * exact);
}

#[test]
fn generated_disk_stays_in_its_band() {
    let light = generate_disk(1_000_000_000_000_000_000, 100);
    for s in &light {
        assert!(speed_matches(s.speed, 1_000_000_000_000_000_000, s.radius));
    }
    let disk = generate_disk(CORE_MASS, 10_000);
    assert_eq!(disk.len(), 10_000);
    for s in &disk {
        assert!(s.radius >= MIN_ORBIT && s.radius <= MIN_ORBIT + ORBIT_SPREAD);
        assert!(s.angle < DRAW_SCALE);
        assert!(speed_matches(s.speed, CORE_MASS, s.radius));
    }
    assert!(generate_disk(CORE_MASS, 0).is_empty());
}

#[test]
fn initial_conditions_have_all_particles() {
    let ic = generate_initial_conditions();
    assert_eq!(ic.clockwise_disk.len() as u32, DISK_PARTICLES);
    assert_eq!(ic.counter_clockwise_disk.len() as u32, DISK_PARTICLES);
    assert_eq!(2 + 2 * DISK_PARTICLES, PARTICLE_COUNT);
    let (a, b) = galaxy_cores();
    assert_eq!(a.position, [0, 1_500_000_000, 2_000_000_000]);
    assert_eq!(a.velocity, [0, 0, -50_000]);
    assert_eq!(b.position, [0, -1_500_000_000, -2_000_000_000]);
    assert_eq!(b.velocity, [0, 0, 50_000]);
    assert_eq!(a.mass, CORE_MASS);
    assert_eq!(ic.cores.0, a);
    assert_eq!(ic.cores.1, b);
    assert_eq!(ic.cores.0.position, [0, 1_500_000_000, 2_000_000_000]);
    assert_eq!(ic.cores.0.velocity, [0, 0, -50_000]);
    assert_eq!(ic.cores.1.position, [0, -1_500_000_000, -2_000_000_000]);
    assert_eq!(ic.cores.1.velocity, [0, 0, 50_000]);
    assert_eq!(ic.cores.1.mass, CORE_MASS);
    for s in ic.clockwise_disk.iter().chain(ic.counter_clockwise_disk.iter()) {
        assert!(s.radius >= MIN_ORBIT && s.radius <= MIN_ORBIT + ORBIT_SPREAD);
        assert!(speed_matches(s.speed, CORE_MASS, s.radius));
    }
}

#[test]
fn digits_select_time_steps() {
    for d in 0..10u8 {
        assert_eq!(time_step_for_digit(d), Some(SELECTABLE[d as usize]));
    }
    assert_eq!(time_step_for_digit(10), None);
    assert!(SELECTABLE.iter().all(|&t| is_selectable_time_step(t)));
    assert!(!is_selectable_time_step(30));
    assert!(!is_selectable_time_step(5120));
    assert_eq!(time_step_for_digit(255), None);
}

#[test]
fn scroll_scales_and_clamps_fly_speed() {
    assert_eq!(scroll_fly_speed(30_000_000, ScrollDelta::Lines(1)), 33_750_000);
    assert_eq!(scroll_fly_speed(30_000_000, ScrollDelta::Pixels(-32)), 15_000_000);
    assert_eq!(scroll_fly_speed(30_000_000, ScrollDelta::Lines(100)), 150_000_000);
    assert_eq!(scroll_fly_speed(30_000_000, ScrollDelta::Lines(-100)), MIN_FLY_SPEED);
    assert_eq!(scroll_fly_speed(9_000_000_000, ScrollDelta::Lines(8)), MAX_FLY_SPEED);
    assert_eq!(scroll_fly_speed(30_000_000, ScrollDelta::Pixels(0)), 30_000_000);
}

#[test]
fn fly_speed_stays_in_bounds_over_many_scrolls() {
    let mut c = Controls::new();
    assert_eq!(c.fly_speed, INITIAL_FLY_SPEED);
    let deltas = [
        ScrollDelta::Lines(3),
        ScrollDelta::Lines(40),
        ScrollDelta::Pixels(500),
        ScrollDelta::Lines(-1),
        ScrollDelta::Lines(-7),
        ScrollDelta::Pixels(-63),
        ScrollDelta::Lines(-50),
    ];
    for i in 0..200 {
        c.handle(Event::Scroll(deltas[i % deltas.len()]));
        assert!(c.fly_speed >= MIN_FLY_SPEED && c.fly_speed <= MAX_FLY_SPEED);
    }
}

#[test]
fn time_step_only_takes_selectable_values() {
    let mut c = Controls::new();
    assert_eq!(c.time_step, 0);
    for d in [3u8, 9, 12, 0, 7, 200, 5] {
        c.handle(Event::KeyPressed(Key::Digit(d)));
        assert!(SELECTABLE.contains(&c.time_step));
    }
    assert_eq!(c.time_step, 160);
    c.handle(Event::KeyPressed(Key::Other));
    assert_eq!(c.time_step, 160);
}

#[test]
fn held_keys_drive_movement() {
    let mut c = Controls::new();
    assert_eq!(c.movement(), Movement { strafe: 0, forward: 0, vertical: 0 });
    c.handle(Event::KeyPressed(Key::Left));
    c.handle(Event::KeyPressed(Key::Forward));
    c.handle(Event::KeyPressed(Key::Descend));
    assert_eq!(c.movement(), Movement { strafe: -1, forward: 1, vertical: -1 });
    c.handle(Event::KeyPressed(Key::Right));
    c.handle(Event::KeyReleased(Key::Descend));
    c.handle(Event::KeyPressed(Key::Ascend));
    assert_eq!(c.movement(), Movement { strafe: 0, forward: 1, vertical: 1 });
    c.handle(Event::KeyReleased(Key::Forward));
    c.handle(Event::KeyPressed(Key::Back));
    assert_eq!(c.movement().forward, -1);
}

#[test]
fn escape_close_and_fullscreen_actions() {
    let mut c = Controls::new();
    assert_eq!(c.handle(Event::KeyPressed(Key::Fullscreen)), Action::ToggleFullscreen);
    assert!(c.running);
    assert_eq!(c.handle(Event::KeyPressed(Key::Digit(1))), Action::Continue);
    assert_eq!(c.handle(Event::KeyPressed(Key::Escape)), Action::Exit);
    assert!(!c.running);
    let mut d = Controls::new();
    assert_eq!(d.handle(Event::CloseRequested), Action::Exit);
    assert!(!d.running);
}

fn sample_particle() -> Particle {
    Particle {
        position: [1.0f32.to_bits(), (-2.5f32).to_bits(), 3e9f32.to_bits()],
        radius: 0.5f32.to_bits(),
        velocity: [4.0f32.to_bits(), 0.0f32.to_bits(), (-5e4f32).to_bits()],
        mass: 1e30f64.to_bits(),
    }
}

#[test]
fn particle_wire_layout() {
    let p = sample_particle();
    let mut out = vec![9u8];
    encode_particle(&p, &mut out);
    assert_eq!(out.len(), 1 + PARTICLE_STRIDE);
    let mut expected = vec![9u8];
    for w in p.position {
        expected.extend_from_slice(&w.to_le_bytes());
    }
    expected.extend_from_slice(&p.radius.to_le_bytes());
    for w in p.velocity {
        expected.extend_from_slice(&w.to_le_bytes());
    }
    expected.extend_from_slice(&[0; 4]);
    expected.extend_from_slice(&1e30f64.to_le_bytes());
    expected.extend_from_slice(&[0; 8]);
    assert_eq!(out, expected);
    let both = encode_particles(&vec![p, p]);
    assert_eq!(both.len(), 2 * PARTICLE_STRIDE);
    assert_eq!(&both[..48], &expected[1..]);
    assert_eq!(&both[48..], &expected[1..]);
}

#[test]
fn parameters_wire_layout() {
    let mut matrix = [0u32; 16];
    for (i, m) in matrix.iter_mut().enumerate() {
        *m = (i as f32).to_bits();
    }
    let g = SharedParameters {
        matrix,
        camera_position: [2e10f32.to_bits(), 0, 0],
        particle_count: PARTICLE_COUNT,
        time_step: 2560.0f32.to_bits(),
    };
    let bytes = encode_parameters(&g);
    assert_eq!(bytes.len(), PARAMETERS_SIZE);
    assert_eq!(&bytes[4..8], &1.0f32.to_le_bytes());
    assert_eq!(&bytes[64..68], &2e10f32.to_le_bytes());
    assert_eq!(&bytes[76..80], &20_002u32.to_le_bytes());
    assert_eq!(&bytes[80..84], &2560.0f32.to_le_bytes());
    assert_eq!(&bytes[84..], &[0u8; 12]);
}

#[test]
fn previous_buffer_lags_one_step() {
    let mut store = ParticleStore::new(vec![1, 2, 3]);
    assert_eq!(store.current(), &vec![1, 2, 3]);
    assert_eq!(store.previous(), &vec![0, 0, 0]);
    store.step(vec![4, 5, 6]);
    assert_eq!(store.previous(), &vec![1, 2, 3]);
    assert_eq!(store.current(), &vec![4, 5, 6]);
    store.begin_step();
    assert_eq!(store.previous(), &vec![4, 5, 6]);
    store.finish_step(vec![7, 8, 9]);
    assert_eq!(store.previous(), &vec![4, 5, 6]);
    assert_eq!(store.current(), &vec![7, 8, 9]);
}

#[test]
fn frame_runs_copy_then_compute_then_draw() {
    assert_eq!(
        frame_commands(40, 20_002),
        vec![
            Command::UploadParameters,
            Command::CopyCurrentToPrevious,
            Command::Compute { time_step: 40 },
            Command::Draw { count: 20_002 },
        ]
    );
}

#[test]
fn time_step_words_are_binary32() {
    for t in SELECTABLE {
        assert_eq!(time_step_word(t), (t as f32).to_bits());
    }
    let g = SharedParameters::new([0; 16], [1, 2, 3], 7, 640);
    assert_eq!(g.time_step, 640.0f32.to_bits());
    assert_eq!(g.camera_position, [1, 2, 3]);
    assert_eq!(g.particle_count, 7);
}
