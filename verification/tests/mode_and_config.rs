use im_core::config::{Cadence, ModeThresholds};
use im_core::model::{transition, Mode, WorkingContext};

fn th() -> ModeThresholds {
    ModeThresholds::default()
}

#[test]
fn transition_selects_idle_below_observe() {
    assert_eq!(transition(0, &th()), Mode::Idle);
    assert_eq!(transition(249_999, &th()), Mode::Idle);
}

#[test]
fn transition_observe_band_is_inclusive_at_lower_end() {
    assert_eq!(transition(250_000, &th()), Mode::Observe);
    assert_eq!(transition(400_000, &th()), Mode::Observe);
    assert_eq!(transition(649_999, &th()), Mode::Observe);
}

#[test]
fn transition_boundary_selects_higher_mode() {
    assert_eq!(transition(650_000, &th()), Mode::Focus);
    assert_eq!(transition(899_999, &th()), Mode::Focus);
    assert_eq!(transition(900_000, &th()), Mode::React);
    assert_eq!(transition(1_000_000, &th()), Mode::React);
}

#[test]
fn transition_is_monotonic_in_salience() {
    let ranks: Vec<u8> = [0u32, 249_999, 250_000, 500_000, 649_999, 650_000, 899_999, 900_000]
        .iter()
        .map(|s| transition(*s, &th()).rank())
        .collect();
    for w in ranks.windows(2) {
        assert!(w[0] <= w[1]);
    }
}

#[test]
fn apply_salience_updates_mode_and_keeps_scene() {
    let mut ctx = WorkingContext::default();
    ctx.scene.hash = 42;
    ctx.apply_salience(700_000, &th());
    assert_eq!(ctx.mode, Mode::Focus);
    assert_eq!(ctx.salience, 700_000);
    assert_eq!(ctx.scene.hash, 42);
}

#[test]
fn cadence_table_matches_defaults() {
    let c = Cadence::default();
    assert_eq!(c.sleep_for(Mode::Idle), 1000);
    assert_eq!(c.sleep_for(Mode::Observe), 100);
    assert_eq!(c.sleep_for(Mode::Focus), 20);
    assert_eq!(c.sleep_for(Mode::React), 5);
    assert!(!c.should_snapshot(Mode::Idle));
    assert!(c.should_snapshot(Mode::Observe));
    assert!(c.should_snapshot(Mode::Focus));
    assert!(!c.should_snapshot(Mode::React));
}

#[test]
fn cadence_sleep_strictly_decreases_as_mode_escalates() {
    let c = Cadence::default();
    assert!(c.sleep_for(Mode::Idle) > c.sleep_for(Mode::Observe));
    assert!(c.sleep_for(Mode::Observe) > c.sleep_for(Mode::Focus));
    assert!(c.sleep_for(Mode::Focus) > c.sleep_for(Mode::React));
}
