use pixel_loop::engine::{EngineEnvironment, FixedTimestep, LoopStep, MAX_FRAME_NANOS};
use rand::RngCore;

#[test]
fn timestep_rounds_to_nearest_nanosecond() {
    assert_eq!(FixedTimestep::new(60, 0).update_timestep(), 16_666_667);
    assert_eq!(FixedTimestep::new(120, 0).update_timestep(), 8_333_333);
    assert_eq!(FixedTimestep::new(1, 0).update_timestep(), 1_000_000_000);
}

#[test]
fn stall_is_cut_to_a_tenth_of_a_second() {
    let mut ts = FixedTimestep::new(60, 0);
    let step = ts.next_loop(5_000_000_000);
    assert_eq!(step, LoopStep { updates: 5, dt_nanos: MAX_FRAME_NANOS });
    assert!(step.updates <= MAX_FRAME_NANOS / ts.update_timestep());
}

fn run(deltas: &[u64]) -> u64 {
    let mut ts = FixedTimestep::new(60, 0);
    let mut now = 0u64;
    let mut total = 0u64;
    for d in deltas {
        now += d;
        total += ts.next_loop(now).updates;
    }
    total
}

#[test]
fn update_count_does_not_depend_on_chunking() {
    let tick = 16_666_667u64;
    let total_time = 300_000_000u64;
    let expected_max = total_time / tick;
    for deltas in [vec![10_000_000u64; 30], vec![100_000_000u64; 3], vec![60_000_000u64, 40_000_000, 100_000_000, 100_000_000]] {
        let n = run(&deltas);
        assert!(n == expected_max || n + 1 == expected_max, "got {n} for {deltas:?}");
    }
}

#[test]
fn remainder_carries_over() {
    let mut ts = FixedTimestep::new(10, 0);
    assert_eq!(ts.next_loop(100_000_000).updates, 0);
    assert_eq!(ts.next_loop(150_000_000).updates, 1);
    assert_eq!(ts.next_loop(250_000_000).updates, 1);
}

#[test]
fn advance_and_take_tick() {
    let mut ts = FixedTimestep::new(100, 1_000);
    assert_eq!(ts.advance(1_000 + 25_000_000), 25_000_000);
    assert!(ts.take_tick());
    assert!(ts.take_tick());
    assert!(!ts.take_tick());
    assert_eq!(ts.advance(500), 0);
}

#[test]
fn seeded_environment_is_reproducible() {
    let mut a = EngineEnvironment::new(42);
    let mut b = EngineEnvironment::new(42);
    assert_eq!(a.rand.next_u64(), b.rand.next_u64());
}
