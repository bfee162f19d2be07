use distgen::encode::{encode, WireValue};
use distgen::format::BinaryFormat;
use distgen::stream::{SampleStream, Verdict};
use rand::distributions::Distribution;
use rand::SeedableRng;

fn wire(x: f64) -> WireValue {
    WireValue { double_bits: x.to_bits(), single_bits: (x as f32).to_bits() }
}

/// Runs the generation loop the way the command-line tool does and returns
/// the emitted values.
fn run<D: Distribution<f64>>(
    d: &D,
    seed: u64,
    n: u64,
    cumulative: bool,
    exponentiate: bool,
    lower: Option<f64>,
    upper: Option<f64>,
) -> Vec<f64> {
    let mut rng = rand::rngs::SmallRng::seed_from_u64(seed);
    let mut stream = SampleStream::new(Some(n), cumulative);
    let mut acc: f64 = 0.0;
    let mut out = Vec::new();
    while !stream.is_done() {
        let mut x = d.sample(&mut rng);
        if exponentiate {
            x = x.exp();
        }
        let below = lower.map_or(false, |l| x < l);
        let above = upper.map_or(false, |h| x > h);
        match stream.judge(below, above) {
            Verdict::Discard => {}
            Verdict::Emit { reset_after, .. } => {
                acc += x;
                out.push(acc);
                if reset_after {
                    acc = 0.0;
                }
            }
        }
    }
    out
}

#[test]
fn limit_counts_only_emitted_samples() {
    let mut s = SampleStream::new(Some(2), false);
    assert!(!s.is_done());
    assert_eq!(s.judge(true, false), Verdict::Discard);
    assert_eq!(s.judge(false, true), Verdict::Discard);
    assert_eq!(s.emitted, 0);
    assert_eq!(s.judge(false, false), Verdict::Emit { terms: 1, reset_after: true });
    assert!(!s.is_done());
    assert_eq!(s.judge(true, true), Verdict::Discard);
    assert_eq!(s.judge(false, false), Verdict::Emit { terms: 1, reset_after: true });
    assert!(s.is_done());
}

#[test]
fn zero_limit_is_done_at_once() {
    assert!(SampleStream::new(Some(0), true).is_done());
    assert!(!SampleStream::new(None, true).is_done());
}

#[test]
fn cumulative_terms_grow_by_one() {
    let mut s = SampleStream::new(None, true);
    assert_eq!(s.judge(false, false), Verdict::Emit { terms: 1, reset_after: false });
    assert_eq!(s.judge(true, false), Verdict::Discard);
    assert_eq!(s.judge(false, false), Verdict::Emit { terms: 2, reset_after: false });
    assert_eq!(s.judge(false, false), Verdict::Emit { terms: 3, reset_after: false });
    assert_eq!(s.emitted, 3);
}

#[test]
fn endless_stream_count_stops_at_the_top() {
    let mut s = SampleStream { limit: None, cumulative: false, emitted: u64::MAX };
    assert_eq!(s.judge(false, false), Verdict::Emit { terms: 1, reset_after: true });
    assert_eq!(s.emitted, u64::MAX);
}

#[test]
fn discarded_normal_samples_stay_within_bounds() {
    let d = statrs::distribution::Normal::new(5.0, 1.0).unwrap();
    let out = run(&d, 7, 5000, false, false, Some(0.0), Some(10.0));
    assert_eq!(out.len(), 5000);
    assert!(out.iter().all(|x| *x >= 0.0 && *x <= 10.0));
    let narrow = run(&d, 7, 2000, false, false, Some(4.5), Some(5.5));
    assert_eq!(narrow.len(), 2000);
    assert!(narrow.iter().all(|x| *x >= 4.5 && *x <= 5.5));
}

#[test]
fn cumulative_values_are_running_sums() {
    let d = statrs::distribution::Normal::new(0.0, 1.0).unwrap();
    let raw = run(&d, 42, 200, false, true, Some(0.5), None);
    let walk = run(&d, 42, 200, true, true, Some(0.5), None);
    let mut sum = 0.0;
    for k in 0..200 {
        sum += raw[k];
        assert_eq!(walk[k], sum);
    }
}

#[test]
fn uniform_samples_stay_in_range() {
    let d = rand::distributions::Uniform::new(-2.0, 3.0);
    let out = run(&d, 1, 20000, false, false, None, None);
    assert!(out.iter().all(|x| *x >= -2.0 && *x < 3.0));
    let inclusive = rand::distributions::Uniform::new_inclusive(0.0, 1.0);
    let out = run(&inclusive, 2, 20000, false, false, None, None);
    assert!(out.iter().all(|x| *x >= 0.0 && *x <= 1.0));
}

#[test]
fn categorical_frequencies_follow_the_weights() {
    let d = statrs::distribution::Categorical::new(&[1.0, 1.0, 2.0]).unwrap();
    let out = run(&d, 3, 40000, false, false, None, None);
    let mut counts = [0u32; 3];
    for x in out {
        counts[x as usize] += 1;
    }
    let n = 40000.0;
    assert!((counts[0] as f64 / n - 0.25).abs() < 0.02);
    assert!((counts[1] as f64 / n - 0.25).abs() < 0.02);
    assert!((counts[2] as f64 / n - 0.5).abs() < 0.02);
}

#[test]
fn same_seed_gives_same_bytes() {
    let d = statrs::distribution::Cauchy::new(0.0, 1.0).unwrap();
    let bytes = |seed: u64| -> Vec<u8> {
        let mut all = Vec::new();
        for x in run(&d, seed, 500, true, false, Some(-50.0), Some(50.0)) {
            all.extend(encode(&wire(x), BinaryFormat::S32LE));
            all.extend(encode(&wire(x), BinaryFormat::F64BE));
        }
        all
    };
    assert_eq!(bytes(99), bytes(99));
    assert_ne!(bytes(99), bytes(100));
}
