use rrush::state::{DEFAULT_SPEED, MAX_SPEED, PRESET_COUNT, SPEED_NUMERATOR};
use rrush::{Orbital, SimState, Term, ENERGY_UNITS_PER_HARTREE, RADIUS_UNITS_PER_BOHR};

const ALL: [Orbital; 6] = [
    Orbital::S1,
    Orbital::S2,
    Orbital::P2z,
    Orbital::P3z,
    Orbital::D3z2,
    Orbital::D3xy,
];

#[test]
fn orbital_names() {
    let names: Vec<&str> = ALL.iter().map(|o| o.name()).collect();
    assert_eq!(names, vec!["1s", "2s", "2p_z", "3p_z", "3d_z2", "3d_xy"]);
}

#[test]
fn orbital_shells() {
    let ns: Vec<u32> = ALL.iter().map(|o| o.n()).collect();
    assert_eq!(ns, vec![1, 2, 2, 3, 3, 3]);
}

#[test]
fn energy_is_minus_half_over_n_squared() {
    for o in ALL {
        let n = o.n() as i32;
        // E·72 = −36/n², i.e. E = −1/(2n²) Hartree.
        assert_eq!(o.energy() * 2 * n * n, -(ENERGY_UNITS_PER_HARTREE as i32));
    }
    assert_eq!(Orbital::S1.energy(), -36);
    assert_eq!(Orbital::P2z.energy(), -9);
    assert_eq!(Orbital::D3xy.energy(), -4);
    // The 1s/2p_z gap is 0.375 Hartree.
    let gap = (Orbital::S1.energy() - Orbital::P2z.energy()).abs() as f32;
    assert_eq!(gap / ENERGY_UNITS_PER_HARTREE as f32, 0.375);
}

#[test]
fn energy_depends_only_on_shell() {
    for a in ALL {
        for b in ALL {
            assert_eq!(a.energy() == b.energy(), a.n() == b.n());
        }
    }
}

#[test]
fn orbital_view_radii() {
    let r: Vec<u32> = ALL.iter().map(|o| o.view_radius()).collect();
    assert_eq!(r, vec![45, 130, 130, 260, 260, 260]);
    assert_eq!(Orbital::S1.view_radius() as f32 / RADIUS_UNITS_PER_BOHR as f32, 4.5);
}

fn orbitals_of(s: &SimState) -> Vec<Orbital> {
    s.terms().iter().map(|t| t.orbital).collect()
}

#[test]
fn preset_table() {
    let p0 = SimState::preset(0);
    assert_eq!(p0.name(), "1s + 2p_z");
    assert_eq!(orbitals_of(&p0), vec![Orbital::S1, Orbital::P2z]);
    let p1 = SimState::preset(1);
    assert_eq!(p1.name(), "1s + 2s");
    assert_eq!(orbitals_of(&p1), vec![Orbital::S1, Orbital::S2]);
    let p2 = SimState::preset(2);
    assert_eq!(p2.name(), "2p_z + 3d_z2");
    assert_eq!(orbitals_of(&p2), vec![Orbital::P2z, Orbital::D3z2]);
    let p3 = SimState::preset(3);
    assert_eq!(p3.name(), "1s + 2p_z + 3d_z2");
    assert_eq!(orbitals_of(&p3), vec![Orbital::S1, Orbital::P2z, Orbital::D3z2]);
    // Any later index names the last preset.
    assert_eq!(SimState::preset(7), p3);
    for i in 0..PRESET_COUNT {
        assert!(SimState::preset(i).terms().iter().all(|t| t.weight == 1));
    }
}

#[test]
fn presets_have_distinct_shells() {
    for i in 0..PRESET_COUNT {
        let ns: Vec<u32> = SimState::preset(i).terms().iter().map(|t| t.orbital.n()).collect();
        for a in 0..ns.len() {
            for b in a + 1..ns.len() {
                assert_ne!(ns[a], ns[b], "preset {i}");
            }
        }
    }
}

#[test]
fn single_and_superposition_basics() {
    let s = SimState::Single(Orbital::P3z);
    assert_eq!(s.name(), "3p_z");
    assert!(!s.is_dynamic());
    assert_eq!(s.terms(), vec![Term { orbital: Orbital::P3z, weight: 1 }]);
    assert!(SimState::preset(0).is_dynamic());
    assert_eq!(s.clone(), s);
    assert_eq!(SimState::preset(2).clone(), SimState::preset(2));
}

#[test]
fn view_radius_is_largest_term() {
    assert_eq!(SimState::Single(Orbital::S1).view_radius(), 45);
    assert_eq!(SimState::preset(0).view_radius(), 130);
    assert_eq!(SimState::preset(1).view_radius(), 130);
    assert_eq!(SimState::preset(3).view_radius(), 260);
    let empty = SimState::Superposition { name: "none", terms: Vec::new() };
    assert_eq!(empty.view_radius(), 0);
}

#[test]
fn norm_sq_sums_squared_weights() {
    assert_eq!(SimState::Single(Orbital::S2).norm_sq(), 1);
    assert_eq!(SimState::preset(0).norm_sq(), 2);
    assert_eq!(SimState::preset(3).norm_sq(), 3);
    let custom = SimState::Superposition {
        name: "custom",
        terms: vec![
            Term { orbital: Orbital::S1, weight: 3 },
            Term { orbital: Orbital::P2z, weight: 4 },
        ],
    };
    assert_eq!(custom.norm_sq(), 25);
    let heavy = SimState::Superposition {
        name: "heavy",
        terms: vec![
            Term { orbital: Orbital::S1, weight: u32::MAX },
            Term { orbital: Orbital::S2, weight: u32::MAX },
        ],
    };
    assert_eq!(heavy.norm_sq(), 2 * (u32::MAX as u128) * (u32::MAX as u128));
}

#[test]
fn largest_bohr_frequency() {
    assert_eq!(SimState::Single(Orbital::D3z2).max_energy_gap(), 0);
    assert_eq!(SimState::preset(0).max_energy_gap(), 27);
    assert_eq!(SimState::preset(1).max_energy_gap(), 27);
    assert_eq!(SimState::preset(2).max_energy_gap(), 5);
    assert_eq!(SimState::preset(3).max_energy_gap(), 32);
    let same_shell = SimState::Superposition {
        name: "2s + 2p_z",
        terms: vec![
            Term { orbital: Orbital::S2, weight: 1 },
            Term { orbital: Orbital::P2z, weight: 1 },
        ],
    };
    assert_eq!(same_shell.max_energy_gap(), 0);
}

#[test]
fn suggested_speeds() {
    assert_eq!(SimState::Single(Orbital::S1).suggested_speed(), (DEFAULT_SPEED, 1));
    // 1.5 / 0.375 = 4
    assert_eq!(SimState::preset(0).suggested_speed(), (SPEED_NUMERATOR, 27));
    assert_eq!(SimState::preset(1).suggested_speed(), (108, 27));
    // 1.5 / (5/72) = 21.6, clamped to 12
    assert_eq!(SimState::preset(2).suggested_speed(), (MAX_SPEED, 1));
    // 1.5 / (32/72) = 3.375
    assert_eq!(SimState::preset(3).suggested_speed(), (108, 32));
    let same_shell = SimState::Superposition {
        name: "3p_z + 3d_xy",
        terms: vec![
            Term { orbital: Orbital::P3z, weight: 1 },
            Term { orbital: Orbital::D3xy, weight: 1 },
        ],
    };
    assert_eq!(same_shell.suggested_speed(), (4, 1));
}

#[test]
fn suggested_speed_stays_in_range() {
    for i in 0..PRESET_COUNT {
        let (num, den) = SimState::preset(i).suggested_speed();
        assert!(den > 0 && den <= num && num <= 12 * den);
    }
}
