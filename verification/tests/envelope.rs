use sf_limiter::envelope::MovingMinimum;

fn step_all(minimum: &mut MovingMinimum, values: &[f64]) -> Vec<f64> {
    values
        .iter()
        .map(|value| f64::from_bits(minimum.step(value.to_bits())))
        .collect()
}

#[test]
fn moving_minimum_tracks_a_fixed_window() {
    let mut minimum = MovingMinimum::new(3);
    let output = step_all(&mut minimum, &[3.0, 2.0, 4.0, 5.0, 1.0]);

    assert_eq!(output, [3.0, 2.0, 2.0, 2.0, 1.0]);
}

#[test]
fn moving_minimum_of_one_value_is_the_value() {
    let mut minimum = MovingMinimum::new(1);
    let values = [0.5, 1.0, 0.25, 0.25, 0.75];
    assert_eq!(step_all(&mut minimum, &values), values);
}

#[test]
fn moving_minimum_drops_values_that_left_the_window() {
    let mut minimum = MovingMinimum::new(2);
    let output = step_all(&mut minimum, &[0.1, 0.9, 0.8, 0.7, 0.7, 1.0, 1.0]);
    assert_eq!(output, [0.1, 0.1, 0.8, 0.7, 0.7, 0.7, 1.0]);
}

#[test]
fn reset_moving_minimum_starts_from_a_neutral_window() {
    let mut minimum = MovingMinimum::new(4);
    step_all(&mut minimum, &[0.25, 0.125]);
    minimum.reset();
    assert_eq!(step_all(&mut minimum, &[1.0, 0.5, 0.75]), [1.0, 0.5, 0.5]);
}

#[test]
fn moving_minimum_orders_gain_keys_as_gains() {
    let mut minimum = MovingMinimum::new(3);
    let gains = [1.0, 0.999_999_9, 1e-300, 0.5, 0.75, 2.0];
    assert_eq!(
        step_all(&mut minimum, &gains),
        [1.0, 0.999_999_9, 1e-300, 1e-300, 1e-300, 0.5]
    );
}
