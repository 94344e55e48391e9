use rrush::state::PRESET_COUNT;
use rrush::{
    hue_index, initial_state, keep_sampling, state_from_key, Orbital, SimState, CLOUD_POINTS, HUES,
    MAX_ATTEMPTS,
};

#[test]
fn digit_keys_pick_orbitals() {
    let singles = [
        ("1", Orbital::S1),
        ("2", Orbital::S2),
        ("3", Orbital::P2z),
        ("4", Orbital::P3z),
        ("5", Orbital::D3z2),
        ("6", Orbital::D3xy),
    ];
    for (key, o) in singles {
        assert_eq!(state_from_key(key), Some(SimState::Single(o)));
    }
}

#[test]
fn digit_keys_pick_presets() {
    let presets = ["7", "8", "9", "0"];
    for (i, key) in presets.iter().enumerate() {
        let s = state_from_key(key).unwrap();
        assert_eq!(s, SimState::preset(i));
        assert!(s.is_dynamic());
    }
    assert_eq!(presets.len(), PRESET_COUNT);
}

#[test]
fn other_keys_pick_nothing() {
    for key in ["", "q", "10", "77", " 1", "a", "٣", "-"] {
        assert_eq!(state_from_key(key), None, "{key:?}");
    }
}

#[test]
fn initial_state_defaults_to_1s() {
    assert_eq!(initial_state(None), SimState::Single(Orbital::S1));
    assert_eq!(initial_state(Some("x")), SimState::Single(Orbital::S1));
    assert_eq!(initial_state(Some("9")), SimState::preset(2));
    assert_eq!(initial_state(Some("6")), SimState::Single(Orbital::D3xy));
}

#[test]
fn hue_index_is_clamped() {
    assert_eq!(HUES, 24);
    assert_eq!(hue_index(0), 0);
    assert_eq!(hue_index(23), 23);
    assert_eq!(hue_index(24), 23);
    assert_eq!(hue_index(usize::MAX), 23);
}

#[test]
fn sampling_budget() {
    assert_eq!(MAX_ATTEMPTS, 4200 * 400);
    assert!(keep_sampling(0, 0));
    assert!(keep_sampling(CLOUD_POINTS - 1, MAX_ATTEMPTS - 1));
    assert!(!keep_sampling(CLOUD_POINTS, 0));
    assert!(!keep_sampling(0, MAX_ATTEMPTS));
}

#[test]
fn quit_overrides_everything() {
    let r = rrush::control_step(true, &vec!['7'], true, true, false, false);
    assert!(r.quit);
    assert_eq!(r.select, None);
    assert!(!r.auto_rotate);
    assert!(!r.paused);
}

#[test]
fn last_digit_pressed_wins() {
    let r = rrush::control_step(false, &vec!['1', '9'], false, false, true, false);
    assert!(!r.quit);
    assert_eq!(r.select, Some(SimState::preset(2)));
    let r = rrush::control_step(false, &vec!['3', 'x'], false, false, true, false);
    assert_eq!(r.select, Some(SimState::Single(Orbital::P2z)));
    let r = rrush::control_step(false, &vec![], false, false, true, false);
    assert_eq!(r.select, None);
}

#[test]
fn space_and_p_toggle() {
    let r = rrush::control_step(false, &vec![], true, false, true, false);
    assert!(!r.auto_rotate && !r.paused);
    let r = rrush::control_step(false, &vec![], false, true, true, false);
    assert!(r.auto_rotate && r.paused);
    let r = rrush::control_step(false, &vec![], true, true, false, true);
    assert!(r.auto_rotate && !r.paused);
}
