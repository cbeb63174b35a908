// The radius actually drawn is the chosen percentage of the largest radius.

#[test]
fn test_percentage_calculation() {
    // Test that percentage calculation works correctly
    let max_radius = 100.0;
    let percentage = 50.0;
    let actual_radius = max_radius * (percentage / 100.0);
    assert!((actual_radius - 50.0_f64).abs() < 0.001);
}

#[test]
fn test_percentage_boundary_low() {
    let max_radius = 100.0;
    let percentage = 0.01;
    let actual_radius = max_radius * (percentage / 100.0);
    assert!((actual_radius - 0.01_f64).abs() < 0.001);
}

#[test]
fn test_percentage_boundary_high() {
    let max_radius = 100.0;
    let percentage = 100.0;
    let actual_radius = max_radius * (percentage / 100.0);
    assert!((actual_radius - 100.0_f64).abs() < 0.001);
}
