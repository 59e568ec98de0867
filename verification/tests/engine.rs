use flock::bird_config::BirdConfig;
use flock::fixed::FX_ONE;
use flock::flock::Flock;
use flock::flock::FlockError;

fn fx(x: i64) -> i64 {
    x * FX_ONE
}

fn cfg(id: &str, weight: i32) -> BirdConfig {
    BirdConfig::new(
        id.to_string(),
        weight,
        fx(40),     // neighbor_distance
        fx(25),     // desired_separation
        32768,      // separation_multiplier (0.5)
        32768,      // alignment_multiplier (0.5)
        19661,      // cohesion_multiplier (0.3)
        fx(5),      // max_speed
        21627,      // max_force (0.33)
        fx(6),      // bird_size
        fx(1),      // color_r
        32768,      // color_g (0.5)
        0,          // color_b
    )
}

#[test]
fn population_never_exceeds_bound() {
    let mut f = Flock::new(5, 42);
    f.insert_bird_config("primary".to_string(), cfg("primary", 40));
    for i in 0..12 {
        f.add_bird("primary".to_string(), fx(i), fx(-i)).unwrap();
        assert!(f.current_flock_size() <= f.max_flock_size());
    }
    assert_eq!(f.current_flock_size(), 5);
    f.set_max_flock_size(3);
    assert!(f.current_flock_size() <= 3);
    assert_eq!(f.max_flock_size(), 3);
    f.set_max_flock_size(0);
    assert_eq!(f.current_flock_size(), 0);
    f.add_bird("primary".to_string(), 0, 0).unwrap();
    assert_eq!(f.current_flock_size(), 0);
}

#[test]
fn random_position_spawns_respect_bound() {
    let mut f = Flock::new(4, 7);
    f.insert_bird_config("primary".to_string(), cfg("primary", 40));
    for _ in 0..10 {
        f.add_bird_at_random_position("primary".to_string(), fx(300), fx(200)).unwrap();
        assert!(f.current_flock_size() <= 4);
    }
}

#[test]
fn weighted_selection_matches_configured_proportions() {
    let mut f = Flock::new(10, 1234);
    f.insert_bird_config("a".to_string(), cfg("a", 40));
    f.insert_bird_config("b".to_string(), cfg("b", 30));
    f.insert_bird_config("c".to_string(), cfg("c", 20));
    f.insert_bird_config("d".to_string(), cfg("d", 10));
    let n = 20000;
    let mut counts = [0usize; 4];
    for _ in 0..n {
        let id = f.choose_config_id_for_spawn().unwrap();
        match id.as_str() {
            "a" => counts[0] += 1,
            "b" => counts[1] += 1,
            "c" => counts[2] += 1,
            "d" => counts[3] += 1,
            other => panic!("unknown id {}", other),
        }
    }
    let expected = [0.4f64, 0.3, 0.2, 0.1];
    for k in 0..4 {
        let freq = counts[k] as f64 / n as f64;
        assert!(
            (freq - expected[k]).abs() < 0.02,
            "species {} frequency {} too far from {}",
            k,
            freq,
            expected[k]
        );
    }
}

#[test]
fn weighted_selection_zero_total_falls_back_to_first() {
    let mut f = Flock::new(10, 5);
    f.insert_bird_config("first".to_string(), cfg("first", 0));
    f.insert_bird_config("second".to_string(), cfg("second", 0));
    for _ in 0..5 {
        assert_eq!(f.choose_config_id_for_spawn().unwrap(), "first");
    }
}

#[test]
fn weighted_selection_empty_registry_yields_none() {
    let mut f = Flock::new(10, 5);
    assert!(f.choose_config_id_for_spawn().is_none());
}

#[test]
fn unknown_species_fails_loudly_and_changes_nothing() {
    let mut f = Flock::new(5, 9);
    f.insert_bird_config("primary".to_string(), cfg("primary", 40));
    f.add_bird("primary".to_string(), 0, 0).unwrap();
    let before = f.current_flock_size();
    let e = f.add_bird("nonexistent".to_string(), 0, 0).unwrap_err();
    let FlockError::SpeciesNotFound { id } = e;
    assert_eq!(id, "nonexistent");
    assert_eq!(f.current_flock_size(), before);
    // The same run continues exactly as if the failed call never happened:
    // a twin instance never issued it and they stay in lockstep.
    let mut twin = Flock::new(5, 9);
    twin.insert_bird_config("primary".to_string(), cfg("primary", 40));
    twin.add_bird("primary".to_string(), 0, 0).unwrap();
    let a = f.step_collect_geometry(fx(300), fx(200), FX_ONE);
    let b = twin.step_collect_geometry(fx(300), fx(200), FX_ONE);
    assert_eq!(a, b);
}

#[test]
fn same_seed_same_calls_identical_buffers() {
    let mut f1 = Flock::new(50, 777);
    let mut f2 = Flock::new(50, 777);
    for f in [&mut f1, &mut f2] {
        f.insert_bird_config("primary".to_string(), cfg("primary", 40));
        f.insert_bird_config("secondary".to_string(), cfg("secondary", 30));
        for _ in 0..20 {
            f.add_bird_at_random_position("primary".to_string(), fx(300), fx(200)).unwrap();
        }
    }
    for _ in 0..3 {
        let (v1, c1) = f1.step_collect_geometry(fx(300), fx(200), FX_ONE);
        let (v2, c2) = f2.step_collect_geometry(fx(300), fx(200), FX_ONE);
        assert_eq!(v1, v2);
        assert_eq!(c1, c2);
    }
}

#[test]
fn different_seeds_diverge() {
    let mut f1 = Flock::new(50, 1);
    let mut f2 = Flock::new(50, 2);
    for f in [&mut f1, &mut f2] {
        f.insert_bird_config("primary".to_string(), cfg("primary", 40));
        for _ in 0..10 {
            f.add_bird_at_random_position("primary".to_string(), fx(300), fx(200)).unwrap();
        }
    }
    let (v1, _) = f1.step_collect_geometry(fx(300), fx(200), FX_ONE);
    let (v2, _) = f2.step_collect_geometry(fx(300), fx(200), FX_ONE);
    assert_ne!(v1, v2);
}

#[test]
fn neighbors_change_the_outcome() {
    // A close second agent must change the first agent's triangle; if the
    // spatial index reported nothing but the agent itself, the two setups
    // would agree.
    let mut solo = Flock::new(10, 3);
    solo.insert_bird_config("primary".to_string(), cfg("primary", 40));
    solo.add_bird("primary".to_string(), 0, 0).unwrap();
    let mut pair = Flock::new(10, 3);
    pair.insert_bird_config("primary".to_string(), cfg("primary", 40));
    pair.add_bird("primary".to_string(), 0, 0).unwrap();
    pair.add_bird("primary".to_string(), fx(5), 0).unwrap();
    let (vs, _) = solo.step_collect_geometry(fx(300), fx(200), FX_ONE);
    let (vp, _) = pair.step_collect_geometry(fx(300), fx(200), FX_ONE);
    assert_eq!(vs.len(), 9);
    assert_eq!(vp.len(), 18);
    assert_ne!(&vs[..], &vp[..9]);
    // A second agent beyond the perception radius leaves the first alone.
    let mut distant = Flock::new(10, 3);
    distant.insert_bird_config("primary".to_string(), cfg("primary", 40));
    distant.add_bird("primary".to_string(), 0, 0).unwrap();
    distant.add_bird("primary".to_string(), fx(120), 0).unwrap();
    let (vd, _) = distant.step_collect_geometry(fx(300), fx(200), FX_ONE);
    assert_eq!(&vs[..], &vd[..9]);
}

#[test]
fn color_buffer_channels_stay_in_unit_range() {
    let mut f = Flock::new(50, 21);
    f.insert_bird_config("primary".to_string(), cfg("primary", 40));
    f.add_species_random();
    for _ in 0..20 {
        let id = f.choose_config_id_for_spawn().unwrap();
        f.add_bird_at_random_position(id, fx(300), fx(200)).unwrap();
    }
    for _ in 0..3 {
        let (_, colors) = f.step_collect_geometry(fx(300), fx(200), FX_ONE);
        assert!(!colors.is_empty());
        assert!(colors.iter().all(|&ch| 0 <= ch && ch <= FX_ONE));
    }
}

#[test]
fn removing_a_species_drops_its_agents_on_the_next_step() {
    let mut f = Flock::new(10, 11);
    f.insert_bird_config("primary".to_string(), cfg("primary", 40));
    f.insert_bird_config("doomed".to_string(), cfg("doomed", 40));
    f.add_bird("primary".to_string(), 0, 0).unwrap();
    f.add_bird("doomed".to_string(), fx(50), 0).unwrap();
    f.add_bird("doomed".to_string(), fx(-50), 0).unwrap();
    assert_eq!(f.current_flock_size(), 3);
    f.remove_bird_config("doomed".to_string());
    let (v, c) = f.step_collect_geometry(fx(300), fx(200), FX_ONE);
    assert_eq!(f.current_flock_size(), 1);
    assert_eq!(v.len(), 9);
    assert_eq!(c.len(), 9);
}

#[test]
fn inserting_an_existing_id_replaces_in_place() {
    let mut f = Flock::new(10, 13);
    f.insert_bird_config("a".to_string(), cfg("a", 10));
    f.insert_bird_config("b".to_string(), cfg("b", 0));
    f.insert_bird_config("a".to_string(), cfg("a", 0));
    // Both weights are now zero: the fallback returns the first key, which
    // must still be "a" (replaced in place, not re-appended).
    assert_eq!(f.choose_config_id_for_spawn().unwrap(), "a");
}

#[test]
fn add_species_random_registers_a_new_species() {
    let mut f = Flock::new(10, 99);
    f.add_species_random();
    // The fresh species is the only one, so a spawn draw must pick it, and
    // its id has the eight-hex-digit shape.
    let id = f.choose_config_id_for_spawn().unwrap();
    assert_eq!(id.len(), 8);
    assert!(id.chars().all(|c| c.is_ascii_hexdigit()));
    f.add_bird("missing".to_string(), 0, 0).unwrap_err();
    f.add_bird(id, 0, 0).unwrap();
    assert_eq!(f.current_flock_size(), 1);
}
