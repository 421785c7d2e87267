use sph::{
    calculate_densities, calculate_pressures, distance, find_neighborhoods, kernel, sph_step,
    Particle, SphConfig, SphError, Vector3, WEIGHT_SCALE,
};

fn at(x: i32, y: i32, z: i32) -> Particle {
    Particle::new(Vector3::new(x, y, z), Vector3::new(0, 0, 0), 0)
}

fn config() -> SphConfig {
    SphConfig {
        neighbor_range: 5000,
        smoothing_length: 1000,
        particle_mass: 1,
        stiffness: 10,
        exponent: 1,
        reference_density: 65536,
    }
}

#[test]
fn kernel_at_zero_distance_is_one() {
    assert_eq!(kernel(0, 1000), WEIGHT_SCALE);
}

#[test]
fn kernel_inner_branch_value() {
    // q = 0.5: 1 + 1.5 * 0.25 + 0.75 * 0.125 = 1.46875
    assert_eq!(kernel(500, 1000), 96256);
}

#[test]
fn kernel_at_smoothing_length_uses_inner_branch() {
    // q = 1: 1 + 1.5 + 0.75 = 3.25
    assert_eq!(kernel(1000, 1000), 212992);
}

#[test]
fn kernel_outer_branch_value() {
    // q = 1.5: 0.25 * 0.5^3 = 0.03125
    assert_eq!(kernel(1500, 1000), 2048);
}

#[test]
fn kernel_vanishes_from_twice_smoothing_length() {
    assert_eq!(kernel(2000, 1000), 0);
    assert_eq!(kernel(2001, 1000), 0);
    assert_eq!(kernel(u64::MAX, 1000), 0);
    assert_eq!(kernel(2 * u32::MAX as u64, u32::MAX), 0);
}

#[test]
fn kernel_rounds_down() {
    // q = 1/3: 1 + 1/6 + 1/36 = 43/36 of the scale, rounded down
    assert_eq!(kernel(1, 3), 43 * 65536 / 36);
}

#[test]
fn kernel_is_non_negative_over_its_support() {
    for d in 0..=3000u64 {
        let w = kernel(d, 1000);
        assert!(w <= 212992);
        if d < 1900 {
            assert!(w > 0);
        }
    }
}

#[test]
fn kernel_with_largest_smoothing_length() {
    assert_eq!(kernel(u32::MAX as u64, u32::MAX), 212992);
    assert_eq!(kernel(0, u32::MAX), 65536);
}

#[test]
fn distance_of_pythagorean_triple() {
    assert_eq!(distance(&Vector3::new(0, 0, 0), &Vector3::new(3, 4, 0)), 5);
    assert_eq!(distance(&Vector3::new(1, 2, 3), &Vector3::new(3, 5, 9)), 7);
}

#[test]
fn distance_rounds_down() {
    assert_eq!(distance(&Vector3::new(0, 0, 0), &Vector3::new(1, 1, 0)), 1);
    assert_eq!(distance(&Vector3::new(0, 0, 0), &Vector3::new(2, 2, 2)), 3);
}

#[test]
fn distance_is_symmetric() {
    let a = Vector3::new(-7, 12, 40);
    let b = Vector3::new(100, -3, 9);
    assert_eq!(distance(&a, &b), distance(&b, &a));
    assert_eq!(distance(&a, &a), 0);
}

#[test]
fn distance_at_extreme_coordinates() {
    let a = Vector3::new(i32::MIN, i32::MIN, i32::MIN);
    let b = Vector3::new(i32::MAX, i32::MAX, i32::MAX);
    let r = distance(&a, &b) as u128;
    let side = u32::MAX as u128;
    let s = 3 * side * side;
    assert!(r * r <= s && s < (r + 1) * (r + 1));
}

#[test]
fn neighbors_exclude_self() {
    let ps = vec![at(0, 0, 0), at(1, 0, 0), at(0, 0, 0)];
    let ns = find_neighborhoods(10, &ps).unwrap();
    assert_eq!(ns, vec![vec![1, 2], vec![0, 2], vec![0, 1]]);
    for (i, nb) in ns.iter().enumerate() {
        assert!(!nb.contains(&i));
    }
}

#[test]
fn neighbors_use_strict_cutoff() {
    let ps = vec![at(0, 0, 0), at(5, 0, 0), at(0, 4, 0)];
    let ns = find_neighborhoods(5, &ps).unwrap();
    assert_eq!(ns, vec![vec![2], vec![], vec![0]]);
}

#[test]
fn neighbors_grow_with_range() {
    let ps = vec![at(0, 0, 0), at(3, 0, 0), at(0, 10, 0), at(50, 50, 50)];
    let small = find_neighborhoods(4, &ps).unwrap();
    let large = find_neighborhoods(12, &ps).unwrap();
    for i in 0..ps.len() {
        for j in &small[i] {
            assert!(large[i].contains(j));
        }
    }
    assert_eq!(small[0], vec![1]);
    assert_eq!(large[0], vec![1, 2]);
}

#[test]
fn neighbors_of_empty_set() {
    assert_eq!(find_neighborhoods(5, &vec![]).unwrap(), Vec::<Vec<usize>>::new());
}

#[test]
fn neighbors_reject_zero_range() {
    assert_eq!(find_neighborhoods(0, &vec![at(0, 0, 0)]), Err(SphError::NonPositiveRange));
}

#[test]
fn two_particle_scenario() {
    let ps = vec![at(0, 0, 0), at(500, 0, 0)];
    let ns = find_neighborhoods(5000, &ps).unwrap();
    assert_eq!(ns, vec![vec![1], vec![0]]);
    let ds = calculate_densities(&ns, &ps, 1000, 1).unwrap();
    assert_eq!(ds, vec![kernel(500, 1000) as u128, kernel(500, 1000) as u128]);
    assert_eq!(ds, vec![96256, 96256]);
}

#[test]
fn density_scales_with_mass() {
    let ps = vec![at(0, 0, 0), at(500, 0, 0), at(0, 1500, 0)];
    let ns = find_neighborhoods(5000, &ps).unwrap();
    let ds = calculate_densities(&ns, &ps, 1000, 3).unwrap();
    assert_eq!(ds[0], 3 * (96256 + 2048));
}

#[test]
fn isolated_particle_has_zero_density() {
    let ps = vec![at(0, 0, 0)];
    let ns = find_neighborhoods(5000, &ps).unwrap();
    assert_eq!(ns, vec![Vec::<usize>::new()]);
    let ds = calculate_densities(&ns, &ps, 1000, 1).unwrap();
    assert_eq!(ds, vec![0]);
    let p = calculate_pressures(&ds, 10, 1, 65536).unwrap();
    assert_eq!(p, vec![-10 * 65536]);
}

#[test]
fn densities_reject_zero_smoothing_length() {
    let ps = vec![at(0, 0, 0)];
    assert_eq!(
        calculate_densities(&vec![vec![]], &ps, 0, 1),
        Err(SphError::NonPositiveSmoothingLength)
    );
}

#[test]
fn densities_reject_zero_mass() {
    let ps = vec![at(0, 0, 0)];
    assert_eq!(calculate_densities(&vec![vec![]], &ps, 1000, 0), Err(SphError::NonPositiveMass));
}

#[test]
fn pressure_vanishes_at_reference_density() {
    assert_eq!(calculate_pressures(&vec![7, 65536], 3, 2, 7).unwrap()[0], 0);
    assert_eq!(calculate_pressures(&vec![65536], 10, 1, 65536).unwrap(), vec![0]);
    assert_eq!(calculate_pressures(&vec![1000], 123, 5, 1000).unwrap(), vec![0]);
}

#[test]
fn pressure_at_zero_density_with_square_exponent() {
    // -k * rho0 / gamma = -3 * 4 / 2
    assert_eq!(calculate_pressures(&vec![0], 3, 2, 4).unwrap(), vec![-6]);
}

#[test]
fn pressure_above_reference_is_positive() {
    // (5 * 2 / 2) * ((4 / 2)^2 - 1) = 15
    assert_eq!(calculate_pressures(&vec![4], 5, 2, 2).unwrap(), vec![15]);
}

#[test]
fn negative_pressure_rounds_down() {
    // (1 * 3 / 2) * (0 - 1) = -1.5
    assert_eq!(calculate_pressures(&vec![0], 1, 2, 3).unwrap(), vec![-2]);
}

#[test]
fn pressures_of_empty_field() {
    assert_eq!(calculate_pressures(&vec![], 1, 1, 1).unwrap(), Vec::<i128>::new());
}

#[test]
fn pressures_reject_zero_reference_density() {
    assert_eq!(calculate_pressures(&vec![1], 1, 1, 0), Err(SphError::NonPositiveReferenceDensity));
}

#[test]
fn pressures_reject_zero_exponent() {
    assert_eq!(calculate_pressures(&vec![1], 1, 0, 1), Err(SphError::ZeroExponent));
}

#[test]
fn pressures_report_overflow() {
    assert_eq!(calculate_pressures(&vec![1, u128::MAX], 1, 2, 1), Err(SphError::Overflow));
    assert_eq!(calculate_pressures(&vec![1], 1, 200, 2), Err(SphError::Overflow));
    assert_eq!(calculate_pressures(&vec![u128::MAX], u64::MAX, 1, 1), Err(SphError::Overflow));
}

#[test]
fn largest_negative_pressure_fits() {
    let half = 1u128 << 127;
    assert_eq!(calculate_pressures(&vec![0], 1, 1, half).unwrap(), vec![i128::MIN]);
    let above = half + 1;
    assert_eq!(calculate_pressures(&vec![0], 1, 1, above), Err(SphError::Overflow));
}

#[test]
fn step_runs_the_whole_pipeline() {
    let ps = vec![at(0, 0, 0), at(500, 0, 0), at(100_000, 0, 0)];
    let out = sph_step(&config(), &ps).unwrap();
    assert_eq!(out.neighborhoods, vec![vec![1], vec![0], vec![]]);
    assert_eq!(out.densities, vec![96256, 96256, 0]);
    // 10 * (96256 - 65536) / 1
    assert_eq!(out.pressures, vec![307200, 307200, -655360]);
}

#[test]
fn step_reports_first_invalid_parameter() {
    let ps = vec![at(0, 0, 0)];
    let mut c = config();
    c.exponent = 0;
    assert_eq!(sph_step(&c, &ps).unwrap_err(), SphError::ZeroExponent);
    c.reference_density = 0;
    assert_eq!(sph_step(&c, &ps).unwrap_err(), SphError::NonPositiveReferenceDensity);
    c.particle_mass = 0;
    assert_eq!(sph_step(&c, &ps).unwrap_err(), SphError::NonPositiveMass);
    c.smoothing_length = 0;
    assert_eq!(sph_step(&c, &ps).unwrap_err(), SphError::NonPositiveSmoothingLength);
    c.neighbor_range = 0;
    assert_eq!(sph_step(&c, &ps).unwrap_err(), SphError::NonPositiveRange);
}

#[test]
fn step_reports_overflow() {
    let ps = vec![at(0, 0, 0), at(1, 0, 0)];
    let mut c = config();
    c.exponent = 40;
    c.reference_density = 1;
    assert_eq!(sph_step(&c, &ps).unwrap_err(), SphError::Overflow);
}
