use flock::animation::Activation;
use flock::animation::BirdConfigTarget;
use flock::animation::ConfigAnimation;
use flock::animation::RandomizationAnimation;
use flock::animation::Rgb;
use flock::bird::Bird;
use flock::bird_config::BirdConfig;
use flock::fixed::FX_HALF;
use flock::fixed::FX_ONE;
use flock::fixed::fx_mul;
use flock::fixed::fx_sub;
use flock::fixed::isqrt;
use flock::lerp;
use flock::lerp_u8;
use flock::vec2::Vec2;

fn fx(x: i64) -> i64 {
    x * FX_ONE
}

fn cfg(id: &str) -> BirdConfig {
    BirdConfig::new(
        id.to_string(),
        40,
        fx(40),
        fx(25),
        FX_ONE, // separation only,
        0,
        0,
        fx(5),
        fx(1000), // force limit far away, so steering is not clipped
        fx(6),
        fx(1),
        32768,
        0,
    )
}

fn bird_at(x: i64, y: i64) -> Bird {
    Bird {
        position: Vec2 { x, y },
        velocity: Vec2 { x: 0, y: 0 },
        acceleration: Vec2 { x: 0, y: 0 },
        config_id: "primary".to_string(),
    }
}

fn mag(v: Vec2) -> i64 {
    v.magnitude()
}

#[test]
fn separation_pushes_away_from_the_closer_neighbor() {
    // Two neighbors on opposite sides, the right one closer: the
    // inverse-square weighting must win for the closer one, pushing the
    // agent left.
    let c = cfg("primary");
    let mut b = bird_at(0, 0);
    let neighbors = vec![
        (Vec2 { x: fx(5), y: 0 }, Vec2 { x: 0, y: 0 }),
        (Vec2 { x: fx(-20), y: 0 }, Vec2 { x: 0, y: 0 }),
    ];
    b.update_bird(&neighbors, &c, fx(300), fx(200), 0);
    assert!(b.acceleration.x < 0, "acceleration.x = {}", b.acceleration.x);
}

#[test]
fn neighbor_cap_keeps_only_the_first_thirty() {
    let c = cfg("primary");
    // 100 identical neighbors within the perception radius...
    let all: Vec<(Vec2, Vec2)> = (0..100)
        .map(|_| (Vec2 { x: fx(10), y: fx(3) }, Vec2 { x: fx(1), y: 0 }))
        .collect();
    let first30: Vec<(Vec2, Vec2)> = all[..30].to_vec();
    let mut b1 = bird_at(0, 0);
    let mut b2 = bird_at(0, 0);
    b1.update_bird(&all, &c, fx(300), fx(200), FX_ONE);
    b2.update_bird(&first30, &c, fx(300), fx(200), FX_ONE);
    assert_eq!(b1.position, b2.position);
    assert_eq!(b1.velocity, b2.velocity);
    assert_eq!(b1.acceleration, b2.acceleration);
    // ... and since the cluster is symmetric (all entries equal), any other
    // choice of thirty gives the identical result.
    let mut reversed = all.clone();
    reversed.reverse();
    let mut b3 = bird_at(0, 0);
    b3.update_bird(&reversed, &c, fx(300), fx(200), FX_ONE);
    assert_eq!(b1.position, b3.position);
    assert_eq!(b1.acceleration, b3.acceleration);
}

#[test]
fn wrap_reappears_at_the_opposite_edge() {
    let c = cfg("primary");
    let width = fx(100);
    let height = fx(100);
    // half = width * 1.1 / 2; r = bird_size * 1.5.
    let half = fx_mul(fx_mul(width, 72089), FX_HALF);
    let r = fx_mul(fx(6), 98304);
    // Past the right edge: the agent reappears at the left inset, not
    // reflected and not clamped to the edge.
    let mut b = bird_at(half + fx(1), fx(2));
    b.update_bird(&Vec::new(), &c, width, height, 0);
    assert_eq!(b.position.x, fx_sub(0, half) + r);
    assert_eq!(b.position.y, fx(2));
    // The guard is on the *inflated* agent: a position still inside the
    // band whose render radius pokes past the edge wraps too.
    let mut b_edge = bird_at(half - fx(1), fx(2));
    assert!(half - fx(1) + r > half);
    b_edge.update_bird(&Vec::new(), &c, width, height, 0);
    assert_eq!(b_edge.position.x, fx_sub(0, half) + r);
    // Past the left edge: reappears at the right inset.
    let mut b2 = bird_at(fx_sub(0, half) - r - fx(1), fx(2));
    b2.update_bird(&Vec::new(), &c, width, height, 0);
    assert_eq!(b2.position.x, half - r);
    // Inside the band: untouched.
    let mut b3 = bird_at(fx(3), fx(4));
    b3.update_bird(&Vec::new(), &c, width, height, 0);
    assert_eq!(b3.position.x, fx(3));
    assert_eq!(b3.position.y, fx(4));
}

fn target(seed_val: i64) -> BirdConfigTarget {
    BirdConfigTarget {
        probability: 40,
        neighbor_distance: fx(seed_val),
        desired_separation: fx(2 * seed_val),
        separation_multiplier: fx(seed_val) / 2,
        alignment_multiplier: 0,
        cohesion_multiplier: fx(1),
        max_speed: fx(seed_val),
        max_force: fx(1) / 4,
        bird_size: fx(seed_val) / 4,
        color: Rgb { r: (10 * seed_val) as u8, g: 0, b: 200 },
    }
}

#[test]
fn interpolation_converges_in_four_half_second_steps() {
    let from = target(0);
    let to = target(8);
    let mut anim = ConfigAnimation::new(from, to, fx(2));
    let expected_t = [FX_ONE / 4, FX_ONE / 2, 3 * FX_ONE / 4, FX_ONE];
    for (k, expect) in expected_t.iter().enumerate() {
        assert!(!anim.finished());
        anim.step(FX_HALF);
        assert_eq!(anim.t, *expect, "after step {}", k + 1);
        let cur = anim.current();
        // Exact linear blends at every quarter.
        assert_eq!(cur.max_speed, lerp(from.max_speed, to.max_speed, *expect));
        assert_eq!(cur.max_speed, fx(8) * (k as i64 + 1) / 4);
        assert_eq!(
            cur.neighbor_distance,
            fx(8) * (k as i64 + 1) / 4,
        );
    }
    assert!(anim.finished());
    // The final blend equals the target exactly.
    assert_eq!(anim.current(), to);
}

#[test]
fn seeded_state_is_deterministic_with_odd_increment() {
    let a = flock::rng::seeded_state(42);
    let b = flock::rng::seeded_state(42);
    assert_eq!(a, b);
    assert_eq!(a.1 % 2, 1);
    assert_ne!(flock::rng::seeded_state(43), a);
}

#[test]
fn randomization_cycle_starts_only_when_enabled_and_due() {
    let mut configs: Vec<(String, BirdConfig)> = vec![("primary".to_string(), cfg("primary"))];
    let before = configs[0].1.max_speed;
    let mut ra = RandomizationAnimation::default();
    let mut rng: (u64, u64) = (1, 3);
    // Disabled: nothing accumulates, nothing changes.
    ra.maybe_start_cycle(&mut rng, Activation::Disabled, fx(100), &configs);
    ra.step(FX_HALF, &mut configs);
    assert_eq!(configs[0].1.max_speed, before);
    // Enabled but not yet due: still nothing.
    ra.maybe_start_cycle(&mut rng, Activation::Enabled, fx(1), &configs);
    ra.step(FX_HALF, &mut configs);
    assert_eq!(configs[0].1.max_speed, before);
    // Enough accumulated time: a cycle starts and blending moves the config.
    ra.maybe_start_cycle(&mut rng, Activation::Enabled, fx(9), &configs);
    ra.step(FX_HALF, &mut configs);
    let blended = configs[0].1.max_speed;
    assert_ne!(blended, before);
    // After the full two-second blend the animation is dropped and the
    // config rests at its target.
    for _ in 0..4 {
        ra.step(FX_HALF, &mut configs);
    }
    let settled = configs[0].1.max_speed;
    ra.step(FX_HALF, &mut configs);
    assert_eq!(configs[0].1.max_speed, settled);
}

#[test]
fn removed_species_is_skipped_by_a_live_animation() {
    let mut configs: Vec<(String, BirdConfig)> = vec![
        ("keep".to_string(), cfg("keep")),
        ("drop".to_string(), cfg("drop")),
    ];
    let mut ra = RandomizationAnimation::default();
    let mut rng: (u64, u64) = (5, 7);
    ra.maybe_start_cycle(&mut rng, Activation::Enabled, fx(10), &configs);
    configs.remove(1);
    // Stepping must not fail and must still blend the surviving species.
    let before = configs[0].1.max_speed;
    ra.step(FX_HALF, &mut configs);
    assert_eq!(configs.len(), 1);
    assert_ne!(configs[0].1.max_speed, before);
}

#[test]
fn fixed_point_formulas_hit_exact_values() {
    assert_eq!(lerp(0, fx(10), FX_HALF), fx(5));
    assert_eq!(lerp(fx(10), fx(10), 12345), fx(10));
    assert_eq!(lerp(fx(2), fx(6), FX_ONE / 4), fx(3));
    assert_eq!(lerp_u8(0, 255, FX_HALF), 128);
    assert_eq!(lerp_u8(10, 10, 999), 10);
    assert_eq!(lerp_u8(0, 255, FX_ONE), 255);
    assert_eq!(fx_mul(fx(3), fx(4)), fx(12));
    assert_eq!(fx_mul(fx(-3), fx(4)), fx(-12));
    assert_eq!(flock::fixed::fx_div(fx(7), fx(2)), fx(7) / 2);
    assert_eq!(isqrt(16), 4);
    assert_eq!(isqrt(17), 4);
    assert_eq!(isqrt(0), 0);
    assert_eq!(mag(Vec2 { x: fx(3), y: fx(4) }), fx(5));
    let u = (Vec2 { x: fx(3), y: fx(4) }).normalized();
    assert_eq!(u, Vec2 { x: 39321, y: 52428 });
}

#[test]
fn triangle_points_along_the_heading() {
    let c = cfg("primary");
    let b = Bird {
        position: Vec2 { x: fx(10), y: fx(20) },
        velocity: Vec2 { x: fx(2), y: 0 },
        acceleration: Vec2 { x: 0, y: 0 },
        config_id: "primary".to_string(),
    };
    let (nose, left, right) = b.get_vertices(&c);
    // Nose ahead of the position along +x; back corners behind it.
    assert!(nose.x > b.position.x);
    assert_eq!(nose.y, b.position.y);
    assert!(left.x < b.position.x);
    assert!(right.x < b.position.x);
    // Spread is symmetric about the heading.
    assert_eq!(left.x, right.x);
    assert_eq!(left.y - b.position.y, b.position.y - right.y);
}

#[test]
fn color_channels_interpolate_independently() {
    let a = Rgb { r: 0, g: 100, b: 255 };
    let b = Rgb { r: 255, g: 100, b: 0 };
    let half = flock::animation::lerp_color(a, b, FX_HALF);
    assert_eq!(half, Rgb { r: 128, g: 100, b: 128 });
    let done = flock::animation::lerp_color(a, b, FX_ONE);
    assert_eq!(done, b);
}
