use price_tally::{median, sort_prices, Median, Price};

fn price(value: f64) -> Price {
    Price { bits: value.to_bits() }
}

fn prices(values: &[f64]) -> Vec<Price> {
    values.iter().map(|value| price(*value)).collect()
}

fn number(price: Price) -> f64 {
    f64::from_bits(price.bits)
}

fn value_of(median: Median) -> f64 {
    match median {
        Median::Exact(middle) => number(middle),
        Median::Mean(lower, upper) => (number(lower) + number(upper)) / 2.0,
    }
}

#[test]
fn median_of_odd_count_is_middle_value() {
    let result = median(prices(&[1.0, 3.0, 2.0]));
    assert_eq!(result, Some(Median::Exact(price(2.0))));
    assert_eq!(value_of(result.unwrap()), 2.0);
}

#[test]
fn median_of_even_count_is_mean_of_central_values() {
    let result = median(prices(&[1.0, 2.0, 3.0, 4.0]));
    assert_eq!(result, Some(Median::Mean(price(2.0), price(3.0))));
    assert_eq!(value_of(result.unwrap()), 2.5);
}

#[test]
fn median_of_even_count_unsorted() {
    let result = median(prices(&[4.0, 1.0, 3.0, 2.0]));
    assert_eq!(result, Some(Median::Mean(price(2.0), price(3.0))));
}

#[test]
fn median_of_nothing_is_none() {
    assert_eq!(median(Vec::new()), None);
}

#[test]
fn median_of_one_price_is_that_price() {
    assert_eq!(median(prices(&[42.5])), Some(Median::Exact(price(42.5))));
}

#[test]
fn median_of_two_prices_is_their_mean() {
    let result = median(prices(&[7.0, 2.0]));
    assert_eq!(result, Some(Median::Mean(price(2.0), price(7.0))));
    assert_eq!(value_of(result.unwrap()), 4.5);
}

#[test]
fn median_with_negative_prices() {
    assert_eq!(median(prices(&[-1.0, -3.0, 2.0])), Some(Median::Exact(price(-1.0))));
    assert_eq!(
        median(prices(&[-1.0, -3.0, 2.0, -8.0])),
        Some(Median::Mean(price(-3.0), price(-1.0)))
    );
}

#[test]
fn median_with_repeated_prices() {
    assert_eq!(median(prices(&[5.0, 5.0, 1.0, 5.0, 9.0])), Some(Median::Exact(price(5.0))));
    assert_eq!(median(prices(&[5.0, 5.0])), Some(Median::Mean(price(5.0), price(5.0))));
}

#[test]
fn median_does_not_depend_on_order() {
    let expected = Some(Median::Exact(price(3.0)));
    assert_eq!(median(prices(&[1.0, 3.0, 5.0])), expected);
    assert_eq!(median(prices(&[1.0, 5.0, 3.0])), expected);
    assert_eq!(median(prices(&[3.0, 1.0, 5.0])), expected);
    assert_eq!(median(prices(&[3.0, 5.0, 1.0])), expected);
    assert_eq!(median(prices(&[5.0, 1.0, 3.0])), expected);
    assert_eq!(median(prices(&[5.0, 3.0, 1.0])), expected);
}

#[test]
fn sort_prices_gives_numeric_order() {
    let values = [3.0, -2.0, 0.5, -7.25, 1e300, -1e-300, 0.0, 2.5e-310, -1e300, 1.0];
    let mut expected = values.to_vec();
    expected.sort_by(|a, b| a.partial_cmp(b).unwrap());
    let sorted: Vec<f64> = sort_prices(prices(&values)).into_iter().map(number).collect();
    assert_eq!(sorted, expected);
    assert_eq!(sorted, vec![-1e300, -7.25, -2.0, -1e-300, 0.0, 2.5e-310, 0.5, 1.0, 3.0, 1e300]);
}

#[test]
fn sort_prices_keeps_every_price() {
    let sorted = sort_prices(prices(&[2.0, 1.0, 2.0, 1.0, 2.0]));
    assert_eq!(sorted, prices(&[1.0, 1.0, 2.0, 2.0, 2.0]));
}

#[test]
fn sort_prices_of_nothing_is_nothing() {
    assert_eq!(sort_prices(Vec::new()), Vec::new());
}

#[test]
fn sort_prices_puts_infinities_at_the_ends() {
    let sorted = sort_prices(prices(&[f64::INFINITY, 0.0, f64::NEG_INFINITY, f64::MAX, f64::MIN]));
    assert_eq!(
        sorted,
        prices(&[f64::NEG_INFINITY, f64::MIN, 0.0, f64::MAX, f64::INFINITY])
    );
}

#[test]
fn negative_zero_sorts_before_positive_zero() {
    let sorted = sort_prices(prices(&[0.0, -0.0, 0.0, -0.0]));
    let bits: Vec<u64> = sorted.iter().map(|p| p.bits).collect();
    assert_eq!(bits, vec![(-0.0f64).to_bits(), (-0.0f64).to_bits(), 0, 0]);
    assert_eq!(
        median(prices(&[0.0, -0.0, -0.0])),
        Some(Median::Exact(price(-0.0)))
    );
}

#[test]
fn patterns_that_are_no_number_sort_outside_the_infinities() {
    let above = Price { bits: 0x7ff8_0000_0000_0000 };
    let below = Price { bits: 0xfff8_0000_0000_0000 };
    let sorted = sort_prices(vec![above, price(f64::INFINITY), below, price(f64::NEG_INFINITY)]);
    assert_eq!(sorted, vec![below, price(f64::NEG_INFINITY), price(f64::INFINITY), above]);
}

#[test]
fn le_is_numeric_order() {
    assert!(price(1.0).le(price(2.0)));
    assert!(!price(2.0).le(price(1.0)));
    assert!(price(2.0).le(price(2.0)));
    assert!(price(-2.0).le(price(-1.0)));
    assert!(!price(-1.0).le(price(-2.0)));
    assert!(price(-1.0).le(price(1.0)));
    assert!(!price(1.0).le(price(-1.0)));
    assert!(price(-0.0).le(price(0.0)));
    assert!(!price(0.0).le(price(-0.0)));
    assert!(price(f64::NEG_INFINITY).le(price(f64::MIN)));
    assert!(price(f64::MAX).le(price(f64::INFINITY)));
}

#[test]
fn le_on_bit_patterns() {
    assert!(Price { bits: 0 }.le(Price { bits: 1 }));
    assert!(Price { bits: 0x8000_0000_0000_0000 }.le(Price { bits: 0 }));
    assert!(!Price { bits: 0 }.le(Price { bits: 0x8000_0000_0000_0000 }));
    assert!(Price { bits: 0x8000_0000_0000_0001 }.le(Price { bits: 0x8000_0000_0000_0000 }));
    assert!(!Price { bits: 0x8000_0000_0000_0000 }.le(Price { bits: 0x8000_0000_0000_0001 }));
    assert!(Price { bits: u64::MAX }.le(Price { bits: 0x8000_0000_0000_0001 }));
    assert!(Price { bits: 0x7fff_ffff_ffff_fffe }.le(Price { bits: 0x7fff_ffff_ffff_ffff }));
}

fn next_pattern(state: &mut u64) -> u64 {
    *state = state.wrapping_mul(6364136223846793005).wrapping_add(1442695040888963407);
    let mut mixed = *state;
    mixed ^= mixed >> 33;
    mixed = mixed.wrapping_mul(0xff51_afd7_ed55_8ccd);
    mixed ^= mixed >> 33;
    mixed
}

#[test]
fn le_agrees_with_total_order_of_numbers() {
    let mut state = 7u64;
    for _ in 0..20_000 {
        let a = next_pattern(&mut state);
        let b = next_pattern(&mut state);
        let expected = f64::from_bits(a).total_cmp(&f64::from_bits(b)).is_le();
        assert_eq!(Price { bits: a }.le(Price { bits: b }), expected);
        assert!(Price { bits: a }.le(Price { bits: a }));
    }
}

#[test]
fn le_agrees_with_comparison_of_numbers() {
    let mut state = 11u64;
    for _ in 0..20_000 {
        let a = f64::from_bits(next_pattern(&mut state));
        let b = f64::from_bits(next_pattern(&mut state));
        if a.is_nan() || b.is_nan() {
            continue;
        }
        assert_eq!(price(a).le(price(b)), a <= b);
    }
}

#[test]
fn sort_prices_agrees_with_sorting_numbers() {
    let mut state = 3u64;
    for round in 0..200 {
        let values: Vec<f64> = (0..round % 17)
            .map(|_| f64::from_bits(next_pattern(&mut state)))
            .filter(|value| !value.is_nan())
            .collect();
        let mut expected = values.clone();
        expected.sort_by(|a, b| a.partial_cmp(b).unwrap());
        let sorted: Vec<f64> = sort_prices(prices(&values)).into_iter().map(number).collect();
        assert_eq!(sorted, expected);
    }
}

#[test]
fn median_agrees_with_median_of_sorted_numbers() {
    let mut state = 5u64;
    for round in 1..200 {
        let values: Vec<f64> = (0..1 + round % 12)
            .map(|_| ((next_pattern(&mut state) % 2001) as f64 - 1000.0) / 8.0)
            .collect();
        let mut sorted = values.clone();
        sorted.sort_by(|a, b| a.partial_cmp(b).unwrap());
        let middle = sorted.len() / 2;
        let expected = if sorted.len() % 2 == 0 {
            (sorted[middle - 1] + sorted[middle]) / 2.0
        } else {
            sorted[middle]
        };
        assert_eq!(value_of(median(prices(&values)).unwrap()), expected);
    }
}
