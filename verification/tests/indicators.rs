use growin_core::arith::{mean, share, total, Arithmetic};
use growin_core::bbands::{calculate_bbands, deviation, DEFAULT_BBANDS_PERIOD, DEFAULT_BBANDS_WIDTH};
use growin_core::ema::{calculate_ema, DEFAULT_EMA_PERIOD};
use growin_core::error::IndicatorError;
use growin_core::macd::{
    calculate_macd, distance, DEFAULT_MACD_FAST, DEFAULT_MACD_SIGNAL, DEFAULT_MACD_SLOW,
};
use growin_core::rsi::{calculate_rsi, changes_of, warm_up, DEFAULT_RSI_PERIOD, RSI_PADDING};
use growin_core::sma::{calculate_sma, DEFAULT_SMA_PERIOD};

struct Ieee;

impl Arithmetic<f64> for Ieee {
    fn number(&self, n: usize) -> f64 {
        n as f64
    }
    fn plus(&self, a: f64, b: f64) -> f64 {
        a + b
    }
    fn minus(&self, a: f64, b: f64) -> f64 {
        a - b
    }
    fn times(&self, a: f64, b: f64) -> f64 {
        a * b
    }
    fn over(&self, a: f64, b: f64) -> f64 {
        a / b
    }
    fn root(&self, a: f64) -> f64 {
        a.sqrt()
    }
    fn magnitude(&self, a: f64) -> f64 {
        a.abs()
    }
    fn is_positive(&self, a: f64) -> bool {
        a > 0.0
    }
    fn is_zero(&self, a: f64) -> bool {
        a == 0.0
    }
}

// Whole numbers without overflow: an operation that would leave the range
// of the type stops the test. Division rounds towards zero.
struct Whole;

impl Arithmetic<i64> for Whole {
    fn number(&self, n: usize) -> i64 {
        i64::try_from(n).unwrap()
    }
    fn plus(&self, a: i64, b: i64) -> i64 {
        a.checked_add(b).unwrap()
    }
    fn minus(&self, a: i64, b: i64) -> i64 {
        a.checked_sub(b).unwrap()
    }
    fn times(&self, a: i64, b: i64) -> i64 {
        a.checked_mul(b).unwrap()
    }
    fn over(&self, a: i64, b: i64) -> i64 {
        a.checked_div(b).unwrap()
    }
    fn root(&self, a: i64) -> i64 {
        let mut r: i64 = 0;
        while (r + 1) * (r + 1) <= a {
            r += 1;
        }
        r
    }
    fn magnitude(&self, a: i64) -> i64 {
        a.checked_abs().unwrap()
    }
    fn is_positive(&self, a: i64) -> bool {
        a > 0
    }
    fn is_zero(&self, a: i64) -> bool {
        a == 0
    }
}

fn prices(seed: u64, len: usize) -> Vec<f64> {
    let mut state = seed;
    let mut out = Vec::new();
    let mut price = 100.0;
    for _ in 0..len {
        state = state
            .wrapping_mul(6364136223846793005)
            .wrapping_add(1442695040888963407);
        let step = ((state >> 33) % 2001) as f64 / 100.0 - 10.0;
        price += step * 0.37;
        out.push(price);
    }
    out
}

fn close(a: &[f64], b: &[f64], tolerance: f64) -> bool {
    a.len() == b.len() && a.iter().zip(b).all(|(x, y)| (x - y).abs() <= tolerance)
}

// The indicators written out in floating point, step by step.

fn sma_in_floats(data: &[f64], period: usize) -> Vec<f64> {
    let mut out = Vec::new();
    let mut sum = 0.0;
    for i in 0..data.len() {
        sum += data[i];
        if i >= period {
            sum -= data[i - period];
            out.push(sum / period as f64);
        } else if i == period - 1 {
            out.push(sum / period as f64);
        } else {
            out.push(0.0);
        }
    }
    out
}

fn ema_in_floats(data: &[f64], period: usize) -> Vec<f64> {
    if data.is_empty() {
        return vec![];
    }
    let mut out = Vec::new();
    let k = 2.0 / (period as f64 + 1.0);
    let start = if data.len() >= period { period - 1 } else { 0 };
    for _ in 0..start {
        out.push(0.0);
    }
    let mut sum = 0.0;
    for x in &data[0..=start] {
        sum += x;
    }
    let mut current = sum / (start + 1) as f64;
    out.push(current);
    for i in (start + 1)..data.len() {
        current = (data[i] * k) + (current * (1.0 - k));
        out.push(current);
    }
    out
}

fn rsi_in_floats(prices: &[f64], period: usize) -> Vec<f64> {
    if prices.len() < period {
        return vec![50.0; prices.len()];
    }
    let mut out = vec![50.0; period];
    let mut diffs = vec![0.0];
    for i in 1..prices.len() {
        diffs.push(prices[i] - prices[i - 1]);
    }
    let end = if diffs.len() > period { period } else { diffs.len() - 1 };
    let mut avg_gain = 0.0;
    let mut avg_loss = 0.0;
    for i in 1..=end {
        if diffs[i] > 0.0 {
            avg_gain += diffs[i];
        } else {
            avg_loss += diffs[i].abs();
        }
    }
    let divisor = if end > 0 { end as f64 } else { 1.0 };
    avg_gain /= divisor;
    avg_loss /= divisor;
    for i in period..prices.len() {
        let (gain, loss) = if diffs[i] > 0.0 { (diffs[i], 0.0) } else { (0.0, diffs[i].abs()) };
        if i != period {
            avg_gain = ((avg_gain * (period as f64 - 1.0)) + gain) / period as f64;
            avg_loss = ((avg_loss * (period as f64 - 1.0)) + loss) / period as f64;
        }
        if avg_loss == 0.0 {
            out.push(100.0);
        } else {
            let rs = avg_gain / avg_loss;
            out.push(100.0 - (100.0 / (1.0 + rs)));
        }
    }
    out
}

fn bbands_in_floats(data: &[f64], period: usize, width: f64) -> (Vec<f64>, Vec<f64>, Vec<f64>) {
    let (mut upper, mut middle, mut lower) = (Vec::new(), Vec::new(), Vec::new());
    for i in 0..data.len() {
        if i + 1 < period {
            upper.push(0.0);
            middle.push(0.0);
            lower.push(0.0);
            continue;
        }
        let window = &data[i + 1 - period..=i];
        let mut sum = 0.0;
        for x in window {
            sum += x;
        }
        let mean = sum / period as f64;
        let mut variance = 0.0;
        for x in window {
            variance += (x - mean) * (x - mean);
        }
        variance /= period as f64;
        let std = variance.sqrt();
        middle.push(mean);
        upper.push(mean + (width * std));
        lower.push(mean - (width * std));
    }
    (upper, middle, lower)
}

#[test]
fn defaults_are_the_usual_ones() {
    assert_eq!(DEFAULT_RSI_PERIOD, 14);
    assert_eq!(DEFAULT_SMA_PERIOD, 20);
    assert_eq!(DEFAULT_EMA_PERIOD, 14);
    assert_eq!(DEFAULT_MACD_FAST, 12);
    assert_eq!(DEFAULT_MACD_SLOW, 26);
    assert_eq!(DEFAULT_MACD_SIGNAL, 9);
    assert_eq!(DEFAULT_BBANDS_PERIOD, 20);
    assert_eq!(DEFAULT_BBANDS_WIDTH, 2);
    assert_eq!(RSI_PADDING, 50);
}

#[test]
fn period_zero_is_refused_by_every_indicator() {
    let data = vec![1.0, 2.0, 3.0];
    let refused = IndicatorError::InvalidArgument;
    assert_eq!(calculate_sma(&Ieee, &data, 0), Err(refused));
    assert_eq!(calculate_ema(&Ieee, &data, 0), Err(refused));
    assert_eq!(calculate_rsi(&Ieee, &data, 0), Err(refused));
    assert_eq!(calculate_bbands(&Ieee, &data, 0, 2.0), Err(refused));
    assert_eq!(calculate_macd(&Ieee, &data, 0, 26, 9), Err(refused));
    assert_eq!(calculate_macd(&Ieee, &data, 12, 0, 9), Err(refused));
    assert_eq!(calculate_macd(&Ieee, &data, 12, 26, 0), Err(refused));
    let none: Vec<f64> = vec![];
    assert_eq!(calculate_sma(&Ieee, &none, 0), Err(refused));
    assert_eq!(calculate_ema(&Ieee, &none, 0), Err(refused));
    assert_eq!(calculate_rsi(&Ieee, &none, 0), Err(refused));
}

#[test]
fn every_output_is_as_long_as_the_input() {
    for len in 0..40 {
        let data = prices(len as u64 + 1, len);
        for period in 1..45 {
            assert_eq!(calculate_sma(&Ieee, &data, period).unwrap().len(), len);
            assert_eq!(calculate_ema(&Ieee, &data, period).unwrap().len(), len);
            assert_eq!(calculate_rsi(&Ieee, &data, period).unwrap().len(), len);
            let (u, m, l) = calculate_bbands(&Ieee, &data, period, 2.0).unwrap();
            assert_eq!((u.len(), m.len(), l.len()), (len, len, len));
        }
        for (fast, slow, signal) in [(12, 26, 9), (1, 1, 1), (3, 5, 50), (50, 2, 4)] {
            let (line, sig, hist) = calculate_macd(&Ieee, &data, fast, slow, signal).unwrap();
            assert_eq!((line.len(), sig.len(), hist.len()), (len, len, len));
        }
    }
}

#[test]
fn arithmetic_helpers_add_up_in_order() {
    let data = vec![1.0, 2.0, 4.0, 8.0];
    assert_eq!(total(&Ieee, &data, 0, 4), 15.0);
    assert_eq!(total(&Ieee, &data, 1, 3), 6.0);
    assert_eq!(total(&Ieee, &data, 2, 2), 0.0);
    assert_eq!(share(&Ieee, 15.0, 4), 3.75);
    assert_eq!(mean(&Ieee, &data, 0, 4), 3.75);
    assert_eq!(mean(&Ieee, &data, 2, 4), 6.0);
    // From zero, left to right: the small items are lost one by one.
    let lossy = vec![1e16, 1.0, 1.0];
    assert_eq!(total(&Ieee, &lossy, 0, 3), 1e16);
}

#[test]
fn sma_pads_then_averages() {
    let data = vec![1.0, 2.0, 3.0, 4.0, 5.0];
    assert_eq!(calculate_sma(&Ieee, &data, 3), Ok(vec![0.0, 0.0, 2.0, 3.0, 4.0]));
    assert_eq!(calculate_sma(&Ieee, &data, 1), Ok(data.clone()));
    assert_eq!(calculate_sma(&Ieee, &data, 5), Ok(vec![0.0, 0.0, 0.0, 0.0, 3.0]));
    assert_eq!(calculate_sma(&Ieee, &data, 6), Ok(vec![0.0; 5]));
    assert_eq!(calculate_sma(&Ieee, &vec![], 3), Ok(vec![]));
}

#[test]
fn sma_keeps_a_running_sum() {
    // The sum carries what the large item did to it: 1e16 + 1 is 1e16, so the
    // two items that went under are missing from it when 1e16 has left, and
    // the third is taken away again as the second leaves.
    let data = vec![1e16, 1.0, 1.0, 1.0];
    assert_eq!(calculate_sma(&Ieee, &data, 2), Ok(vec![0.0, 5e15, 0.0, 0.0]));
}

#[test]
fn sma_in_whole_numbers() {
    let data: Vec<i64> = vec![3, 6, 9, 12, 16];
    assert_eq!(calculate_sma(&Whole, &data, 2), Ok(vec![0, 4, 7, 10, 14]));
}

#[test]
fn sma_is_the_same_as_in_floats() {
    for seed in 1..30 {
        let data = prices(seed, 60);
        for period in [1, 2, 3, 7, 20, 59, 60, 61] {
            assert_eq!(
                calculate_sma(&Ieee, &data, period).unwrap(),
                sma_in_floats(&data, period)
            );
        }
    }
}

#[test]
fn ema_seeds_with_the_mean_then_smooths() {
    let data = vec![1.0, 2.0, 3.0, 4.0];
    assert_eq!(calculate_ema(&Ieee, &data, 2), Ok(vec![0.0, 1.5, 2.5, 3.5]));
    // 2 / (3 + 1) = 0.5: each value is half the item and half the value before.
    let data = vec![2.0, 4.0, 6.0, 8.0, 16.0];
    assert_eq!(calculate_ema(&Ieee, &data, 3), Ok(vec![0.0, 0.0, 4.0, 6.0, 11.0]));
}

#[test]
fn ema_of_short_data_starts_at_the_first_item() {
    // Fewer items than the period: no padding, the first item is the seed.
    let data = vec![8.0, 16.0];
    assert_eq!(calculate_ema(&Ieee, &data, 3), Ok(vec![8.0, 12.0]));
    assert_eq!(calculate_ema(&Ieee, &vec![5.0], 14), Ok(vec![5.0]));
}

#[test]
fn ema_edge_cases() {
    assert_eq!(calculate_ema(&Ieee, &vec![], 14), Ok(vec![]));
    // A period of 1 gives the weight 1: the average is the data.
    let data = vec![3.0, 1.0, 4.0, 1.0, 5.0];
    assert_eq!(calculate_ema(&Ieee, &data, 1), Ok(data.clone()));
    // As many items as the period: padding, then the mean of all.
    assert_eq!(calculate_ema(&Ieee, &data, 5), Ok(vec![0.0, 0.0, 0.0, 0.0, 2.8]));
}

#[test]
fn ema_is_the_same_as_in_floats() {
    for seed in 1..30 {
        let data = prices(seed, 60);
        for period in [1, 2, 3, 9, 12, 14, 26, 59, 60, 61, 100] {
            assert_eq!(
                calculate_ema(&Ieee, &data, period).unwrap(),
                ema_in_floats(&data, period)
            );
        }
    }
}

#[test]
fn rsi_is_all_padding_with_fewer_prices_than_the_period() {
    assert_eq!(calculate_rsi(&Ieee, &vec![1.0, 2.0, 3.0], 4), Ok(vec![50.0; 3]));
    assert_eq!(calculate_rsi(&Ieee, &vec![1.0], 14), Ok(vec![50.0]));
    assert_eq!(calculate_rsi(&Ieee, &vec![], 14), Ok(vec![]));
    for len in 0..14 {
        let data = prices(7, len);
        assert_eq!(calculate_rsi(&Ieee, &data, 14), Ok(vec![50.0; len]));
    }
}

#[test]
fn rsi_is_all_padding_with_as_many_prices_as_the_period() {
    assert_eq!(calculate_rsi(&Ieee, &vec![1.0, 2.0, 3.0], 3), Ok(vec![50.0; 3]));
    assert_eq!(calculate_rsi(&Ieee, &vec![1.0], 1), Ok(vec![50.0]));
}

#[test]
fn rsi_worked_example() {
    let out = calculate_rsi(&Ieee, &vec![1.0, 2.0, 1.0, 2.0, 5.0], 3).unwrap();
    assert!(close(&out, &[50.0, 50.0, 50.0, 66.667, 86.667], 1e-3), "{out:?}");
    // Index 3 is made from the plain averages 2/3 and 1/3 of the warm-up;
    // index 4 from Wilder's averages 13/9 and 2/9.
    assert_eq!(out[3], 100.0 - (100.0 / (1.0 + ((2.0 / 3.0) / (1.0 / 3.0)))));
    let gain = (((2.0 / 3.0) * 2.0) + 3.0) / 3.0;
    let loss = (((1.0 / 3.0) * 2.0) + 0.0) / 3.0;
    assert_eq!(out[4], 100.0 - (100.0 / (1.0 + (gain / loss))));
}

#[test]
fn rsi_first_value_uses_the_warm_up_averages_unchanged() {
    // Warm-up over the changes +4, -2: averages 2 and 1, strength 100 - 100/3.
    // Smoothing at index 2 would have given other averages.
    let out = calculate_rsi(&Ieee, &vec![10.0, 14.0, 12.0, 12.0], 2).unwrap();
    assert_eq!(out[2], 100.0 - (100.0 / (1.0 + (2.0 / 1.0))));
    // Index 3: change 0, a loss of 0: averages (2*1+0)/2 = 1 and (1*1+0)/2 = 0.5.
    assert_eq!(out[3], 100.0 - (100.0 / (1.0 + (1.0 / 0.5))));
}

#[test]
fn rsi_without_losses_is_one_hundred() {
    assert_eq!(
        calculate_rsi(&Ieee, &vec![1.0, 2.0, 3.0, 4.0, 5.0], 3),
        Ok(vec![50.0, 50.0, 50.0, 100.0, 100.0])
    );
    // No change at all is no loss either.
    assert_eq!(
        calculate_rsi(&Ieee, &vec![7.0, 7.0, 7.0, 7.0], 2),
        Ok(vec![50.0, 50.0, 100.0, 100.0])
    );
}

#[test]
fn rsi_without_gains_is_zero() {
    assert_eq!(
        calculate_rsi(&Ieee, &vec![5.0, 4.0, 3.0, 2.0, 1.0], 3),
        Ok(vec![50.0, 50.0, 50.0, 0.0, 0.0])
    );
}

#[test]
fn rsi_with_period_one() {
    // Warm-up over the one change +1; then every change replaces the averages.
    assert_eq!(
        calculate_rsi(&Ieee, &vec![1.0, 2.0, 1.0, 3.0], 1),
        Ok(vec![50.0, 100.0, 0.0, 100.0])
    );
}

#[test]
fn rsi_changes_and_warm_up() {
    let data = vec![10.0, 14.0, 12.0, 12.0];
    let changes = changes_of(&Ieee, &data);
    assert_eq!(changes, vec![0.0, 4.0, -2.0, 0.0]);
    assert_eq!(changes_of(&Ieee, &vec![]), Vec::<f64>::new());
    assert_eq!(changes_of(&Ieee, &vec![3.0]), vec![0.0]);
    assert_eq!(warm_up(&Ieee, &changes, 2), (2.0, 1.0));
    assert_eq!(warm_up(&Ieee, &changes, 3), (4.0 / 3.0, 2.0 / 3.0));
    // A warm-up without changes divides by 1.
    assert_eq!(warm_up(&Ieee, &changes, 0), (0.0, 0.0));
}

#[test]
fn rsi_is_the_same_as_in_floats() {
    for seed in 1..30 {
        let data = prices(seed, 80);
        for period in [1, 2, 3, 14, 79, 80, 81] {
            assert_eq!(
                calculate_rsi(&Ieee, &data, period).unwrap(),
                rsi_in_floats(&data, period)
            );
        }
    }
}

#[test]
fn rsi_stays_between_zero_and_one_hundred() {
    for seed in 1..30 {
        let data = prices(seed, 80);
        for value in calculate_rsi(&Ieee, &data, 14).unwrap() {
            assert!((0.0..=100.0).contains(&value));
        }
    }
}

#[test]
fn macd_histogram_is_line_less_signal() {
    for seed in 1..20 {
        let data = prices(seed, 90);
        let (line, signal, histogram) = calculate_macd(&Ieee, &data, 12, 26, 9).unwrap();
        for i in 0..data.len() {
            assert_eq!(histogram[i], line[i] - signal[i]);
        }
    }
}

#[test]
fn macd_is_built_from_exponential_averages() {
    for seed in 1..20 {
        let data = prices(seed, 90);
        for (fast, slow, signal) in [(12, 26, 9), (3, 5, 2), (1, 2, 3), (26, 12, 9)] {
            let quick = ema_in_floats(&data, fast);
            let slack = ema_in_floats(&data, slow);
            let line: Vec<f64> = (0..data.len()).map(|i| quick[i] - slack[i]).collect();
            let smoothed = ema_in_floats(&line, signal);
            let histogram: Vec<f64> = (0..data.len()).map(|i| line[i] - smoothed[i]).collect();
            assert_eq!(
                calculate_macd(&Ieee, &data, fast, slow, signal),
                Ok((line, smoothed, histogram))
            );
        }
    }
}

#[test]
fn macd_worked_example() {
    let data = vec![2.0, 4.0, 6.0, 8.0, 16.0];
    // Fast over 1: the data. Slow over 3: 0, 0, 4, 6, 11.
    let (line, signal, histogram) = calculate_macd(&Ieee, &data, 1, 3, 3).unwrap();
    assert_eq!(line, vec![2.0, 4.0, 2.0, 2.0, 5.0]);
    // Signal over 3 of the line: padding, the mean 8/3 at index 2, then halves.
    let seed = 8.0 / 3.0;
    let s3 = 2.0 * 0.5 + seed * 0.5;
    let s4 = 5.0 * 0.5 + s3 * 0.5;
    assert_eq!(signal, vec![0.0, 0.0, seed, s3, s4]);
    assert_eq!(histogram, vec![2.0, 4.0, 2.0 - seed, 2.0 - s3, 5.0 - s4]);
}

#[test]
fn macd_in_the_padding_is_the_distance_of_the_paddings() {
    let data = prices(3, 30);
    let (line, _, _) = calculate_macd(&Ieee, &data, 12, 26, 9).unwrap();
    // Before index 11 both averages are padding.
    for i in 0..11 {
        assert_eq!(line[i], 0.0);
    }
    // From 11 to 24 the fast average is there and the slow one is padding.
    let quick = ema_in_floats(&data, 12);
    for i in 11..25 {
        assert_eq!(line[i], quick[i]);
    }
}

#[test]
fn macd_of_short_data_keeps_its_length() {
    let data = vec![1.0, 2.0, 3.0];
    let (line, signal, histogram) = calculate_macd(&Ieee, &data, 12, 26, 9).unwrap();
    // Too short for either period: both averages start at the first item and
    // smooth with their own weight.
    assert_eq!(line.len(), 3);
    assert_eq!(signal.len(), 3);
    assert_eq!(histogram.len(), 3);
    assert_eq!(line[0], 0.0);
    assert_eq!(signal[0], line[0]);
    let none: Vec<f64> = vec![];
    assert_eq!(calculate_macd(&Ieee, &none, 12, 26, 9), Ok((vec![], vec![], vec![])));
}

#[test]
fn distance_subtracts_index_by_index() {
    assert_eq!(distance(&Ieee, &vec![5.0, 7.0], &vec![1.0, 10.0]), vec![4.0, -3.0]);
    assert_eq!(distance(&Ieee, &vec![], &vec![]), Vec::<f64>::new());
}

#[test]
fn bbands_worked_example() {
    // Mean 5, population variance 4, deviation 2.
    let data = vec![2.0, 4.0, 4.0, 4.0, 5.0, 5.0, 7.0, 9.0];
    let (upper, middle, lower) = calculate_bbands(&Ieee, &data, 8, 2.0).unwrap();
    assert_eq!(upper, vec![0.0, 0.0, 0.0, 0.0, 0.0, 0.0, 0.0, 9.0]);
    assert_eq!(middle, vec![0.0, 0.0, 0.0, 0.0, 0.0, 0.0, 0.0, 5.0]);
    assert_eq!(lower, vec![0.0, 0.0, 0.0, 0.0, 0.0, 0.0, 0.0, 1.0]);
    assert_eq!(deviation(&Ieee, &data, 0, 8, 5.0), 2.0);
    let (upper, _, lower) = calculate_bbands(&Ieee, &data, 8, 1.5).unwrap();
    assert_eq!((upper[7], lower[7]), (8.0, 2.0));
}

#[test]
fn bbands_divide_by_the_period_not_by_one_less() {
    // Window 1, 3: mean 2, squared distances 1 and 1, variance 2 / 2 = 1.
    let (upper, middle, lower) = calculate_bbands(&Ieee, &vec![1.0, 3.0], 2, 2.0).unwrap();
    assert_eq!((upper[1], middle[1], lower[1]), (4.0, 2.0, 0.0));
}

#[test]
fn bbands_windows_slide() {
    let data = vec![1.0, 3.0, 7.0, 7.0];
    let (upper, middle, lower) = calculate_bbands(&Ieee, &data, 2, 1.0).unwrap();
    assert_eq!(middle, vec![0.0, 2.0, 5.0, 7.0]);
    assert_eq!(upper, vec![0.0, 3.0, 7.0, 7.0]);
    assert_eq!(lower, vec![0.0, 1.0, 3.0, 7.0]);
}

#[test]
fn bbands_of_a_constant_series_collapse_onto_it() {
    for c in [5.0, 0.0, -3.5, 1024.0, 0.25] {
        for period in [1, 2, 4, 8] {
            let data = vec![c; 12];
            let (upper, middle, lower) = calculate_bbands(&Ieee, &data, period, 2.0).unwrap();
            for i in period - 1..data.len() {
                assert_eq!((upper[i], middle[i], lower[i]), (c, c, c));
            }
        }
    }
}

#[test]
fn bbands_of_a_constant_series_in_floats_are_only_close() {
    // Three times 0.1 is not 0.3 in binary floating point.
    let (upper, middle, lower) = calculate_bbands(&Ieee, &vec![0.1; 4], 3, 2.0).unwrap();
    assert_eq!(middle[2], 0.10000000000000002);
    assert_eq!(upper[2], 0.10000000000000005);
    assert_eq!(lower[2], 0.09999999999999999);
    assert!(close(&upper[2..], &[0.1, 0.1], 1e-12));
    assert!(close(&lower[2..], &[0.1, 0.1], 1e-12));
}

#[test]
fn bbands_edge_cases() {
    let none: Vec<f64> = vec![];
    assert_eq!(calculate_bbands(&Ieee, &none, 20, 2.0), Ok((vec![], vec![], vec![])));
    let data = vec![1.0, 2.0];
    assert_eq!(
        calculate_bbands(&Ieee, &data, 3, 2.0),
        Ok((vec![0.0; 2], vec![0.0; 2], vec![0.0; 2]))
    );
    // A window of one item has no deviation.
    assert_eq!(
        calculate_bbands(&Ieee, &data, 1, 2.0),
        Ok((data.clone(), data.clone(), data.clone()))
    );
}

#[test]
fn bbands_are_the_same_as_in_floats() {
    for seed in 1..20 {
        let data = prices(seed, 50);
        for period in [1, 2, 5, 20, 49, 50, 51] {
            for width in [2.0, 1.0, 0.0, 2.5] {
                assert_eq!(
                    calculate_bbands(&Ieee, &data, period, width).unwrap(),
                    bbands_in_floats(&data, period, width)
                );
            }
        }
    }
}

#[test]
fn middle_band_is_the_moving_average_in_exact_arithmetic() {
    let data: Vec<i64> = vec![4, 8, 6, 2, 10, 14];
    for period in 1..8 {
        let (_, middle, _) = calculate_bbands(&Whole, &data, period, 2).unwrap();
        assert_eq!(calculate_sma(&Whole, &data, period).unwrap(), middle);
    }
}

#[test]
fn bbands_of_a_constant_series_in_exact_arithmetic() {
    for c in [7, 0, -3, 1000003] {
        for period in 1..6 {
            let data: Vec<i64> = vec![c; 9];
            let (upper, middle, lower) = calculate_bbands(&Whole, &data, period, 2).unwrap();
            for i in period - 1..data.len() {
                assert_eq!((upper[i], middle[i], lower[i]), (c, c, c));
            }
        }
    }
}

#[test]
fn bbands_in_whole_numbers() {
    // Window 2, 4, 4, 4, 5, 5, 7, 9: mean 5, variance 4, deviation 2.
    let data: Vec<i64> = vec![2, 4, 4, 4, 5, 5, 7, 9];
    let (upper, middle, lower) = calculate_bbands(&Whole, &data, 8, 3).unwrap();
    assert_eq!((upper[7], middle[7], lower[7]), (11, 5, -1));
}

#[test]
fn rsi_in_whole_numbers() {
    // Changes +6, -3, +9: warm-up averages 3 and 1 (6/2 and 3/2 rounded down),
    // strength 100 - 100 / (1 + 3) = 75. Then (3 * 1 + 9) / 2 = 6 and
    // (1 * 1 + 0) / 2 = 0: no loss is left, strength 100.
    let data: Vec<i64> = vec![10, 16, 13, 22];
    assert_eq!(calculate_rsi(&Whole, &data, 2), Ok(vec![50, 50, 75, 100]));
}

#[test]
fn middle_band_is_close_to_the_moving_average_in_floats() {
    for seed in 1..20 {
        let data = prices(seed, 50);
        for period in [1, 2, 5, 20] {
            let (_, middle, _) = calculate_bbands(&Ieee, &data, period, 2.0).unwrap();
            let average = calculate_sma(&Ieee, &data, period).unwrap();
            assert!(close(&middle, &average, 1e-9));
            // Up to the first full window the two are the same number.
            for i in 0..period {
                assert_eq!(middle[i], average[i]);
            }
        }
    }
    // Later the running sum and the sum of the window round differently.
    let data = vec![0.1, 0.7, 0.3, 0.9];
    let (_, middle, _) = calculate_bbands(&Ieee, &data, 2, 2.0).unwrap();
    let average = calculate_sma(&Ieee, &data, 2).unwrap();
    assert_eq!(middle[2], 0.5);
    assert_eq!(average[2], 0.49999999999999994);
}
