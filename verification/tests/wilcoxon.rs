use bench_diff::histogram::Timing;
use bench_diff::stats_types::{AltHyp, Hyp};
use bench_diff::wilcoxon::{
    mann_whitney_u, mann_whitney_u_a, mann_whitney_u_b, wilcoxon_rank_sum_r_w,
    wilcoxon_rank_sum_ties_sum_prod, wilcoxon_rank_sum_w, wilcoxon_rank_sums,
    wilcoxon_ranked_items, wilcoxon_ranked_items_ties_sum_prod, RankSums,
};
use statrs::distribution::{ContinuousCDF, Normal};

const ALPHA: f64 = 0.05;
const EPSILON: f64 = 0.0005;

fn approx_eq(x: f64, y: f64, epsilon: f64) -> bool {
    (x - y).abs() < epsilon
}

fn book_data() -> (Vec<f64>, Vec<f64>) {
    let sample_a = vec![0.73, 0.80, 0.83, 1.04, 1.38, 1.45, 1.46, 1.64, 1.89, 1.91];
    let sample_b = vec![0.74, 0.88, 0.90, 1.15, 1.21];
    (sample_a, sample_b)
}

fn contrived_data() -> (Vec<f64>, Vec<f64>) {
    let sample_a = vec![
        85., 90., 78., 92., 88., 76., 95., 89., 91., 82., 115., 120., 108., 122., 118., 106.,
        125., 119., 121., 112., 145., 150., 138., 152., 148., 136., 155., 149., 151., 142., 175.,
        180., 168., 182., 178., 166., 185., 179., 181., 172., 205., 210., 198., 212., 208., 196.,
        215., 209., 211., 202.,
    ];
    let sample_b = vec![
        70., 85., 80., 90., 75., 88., 92., 79., 86., 81., 92., 100., 115., 110., 120., 105., 118.,
        122., 109., 116., 111., 122., 130., 145., 140., 150., 135., 148., 152., 139., 146., 141.,
        152., 160., 175., 170., 180., 165., 178., 182., 169., 176., 171., 182., 190., 205., 200.,
        210., 195., 208., 212., 199., 206., 201., 212.,
    ];
    (sample_a, sample_b)
}

fn shifted_contrived_data() -> (Vec<f64>, Vec<f64>) {
    let (sample_a, sample_b) = contrived_data();
    let sample_b = sample_b.into_iter().map(|v| v + 35.).collect::<Vec<_>>();
    (sample_a, sample_b)
}

fn new_hist(hist_max: u64, hist_sigfig: u8) -> Timing {
    match Timing::new_with_max(hist_max, hist_sigfig) {
        Ok(h) => h,
        Err(_) => panic!("histogram parameters must be valid"),
    }
}

fn record(h: &mut Timing, v: u64) {
    assert!(h.record(v).is_ok(), "value must be in range");
}

fn data_hists(
    (data_a, data_b): (Vec<f64>, Vec<f64>),
    factor: u64,
    hist_max: u64,
    hist_sigfig: u8,
) -> (Timing, Timing) {
    let mut hist_a = new_hist(hist_max, hist_sigfig);
    let mut hist_b = hist_a.new_from();
    for v in data_a {
        record(&mut hist_a, (v * factor as f64) as u64);
    }
    for v in data_b {
        record(&mut hist_b, (v * factor as f64) as u64);
    }
    (hist_a, hist_b)
}

fn sample_hists(sample_a: &[u64], sample_b: &[u64], hist_max: u64, hist_sigfig: u8) -> (Timing, Timing) {
    let mut hist_a = new_hist(hist_max, hist_sigfig);
    let mut hist_b = hist_a.new_from();
    for v in sample_a {
        record(&mut hist_a, *v);
    }
    for v in sample_b {
        record(&mut hist_b, *v);
    }
    (hist_a, hist_b)
}

/// The normal approximation of the rank-sum test, with the ties adjustment, from the statistics
/// that the library computes.
fn p_value(sums: &RankSums, alt_hyp: AltHyp) -> f64 {
    let n_a = sums.n_a as f64;
    let n_b = sums.n_b as f64;
    let w = sums.twice_rank_sum_b as f64 / 2.;
    let ties_sum_prod = sums.ties_sum_prod.expect("ties sum must fit") as f64;
    let e0_w = n_b * (n_a + n_b + 1.) / 2.;
    let var0_w_base = n_a * n_b * (n_a + n_b + 1.) / 12.;
    let var0_w_ties_adjust = n_a * n_b / (12. * (n_a + n_b) * (n_a + n_b - 1.)) * ties_sum_prod;
    let var0_w = var0_w_base - var0_w_ties_adjust;
    let z = -(w - e0_w) / var0_w.sqrt();
    let normal = Normal::standard();
    match alt_hyp {
        AltHyp::Lt => normal.cdf(z),
        AltHyp::Gt => normal.cdf(-z),
        AltHyp::Ne => normal.cdf(-z.abs()) * 2.,
    }
}

fn accepted(p: f64, alpha: f64, alt_hyp: AltHyp) -> Hyp {
    if p >= alpha {
        Hyp::Null
    } else {
        Hyp::Alt(alt_hyp)
    }
}

fn check_wilcoxon(
    hist_a: &Timing,
    hist_b: &Timing,
    alt_hyp: AltHyp,
    exp_r_w: f64,
    exp_p: f64,
    exp_accept_hyp: Hyp,
) {
    let sums = wilcoxon_rank_sum_ties_sum_prod(hist_a, hist_b).expect("samples must be rankable");
    let r_w = wilcoxon_rank_sum_r_w(hist_a, hist_b).expect("samples must be rankable") as f64 / 2.;
    let p = p_value(&sums, alt_hyp);

    assert_eq!(exp_r_w, r_w, "alt_hyp={alt_hyp:?} -- exp_r_w={exp_r_w}, r_w={r_w}");
    assert!(approx_eq(exp_p, p, EPSILON), "alt_hyp={alt_hyp:?} -- exp_p={exp_p}, p={p}");
    assert_eq!(exp_accept_hyp, accepted(p, ALPHA, alt_hyp), "alt_hyp={alt_hyp:?} -- accepted");

    let u_a = mann_whitney_u_a(hist_a, hist_b).unwrap();
    let u_b = mann_whitney_u_b(hist_a, hist_b).unwrap();
    let u = mann_whitney_u(hist_a, hist_b).unwrap();
    assert_eq!(u_a as f64 / 2., r_w);
    assert_eq!(u_a + u_b, 2 * sums.n_a as u128 * sums.n_b as u128);
    assert_eq!(u, u_a.min(u_b));
}

#[test]
fn test_w() {
    let (hist_a, hist_b) = data_hists(book_data(), 100, 200, 3);

    let expected_w = 30.;
    let actual_w = wilcoxon_rank_sum_w(&hist_a, &hist_b).unwrap() as f64 / 2.;
    assert_eq!(expected_w, actual_w, "w comparison");

    let expected_r_w = 35.;
    let actual_r_w = wilcoxon_rank_sum_r_w(&hist_a, &hist_b).unwrap() as f64 / 2.;
    assert_eq!(expected_r_w, actual_r_w, "R w comparison");

    let expected_p = 0.2207;
    let sums = wilcoxon_rank_sum_ties_sum_prod(&hist_a, &hist_b).unwrap();
    let actual_p = p_value(&sums, AltHyp::Ne);
    assert!(approx_eq(expected_p, actual_p, EPSILON), "p comparison");
}

#[test]
fn wilcoxon_test_w() {
    let sample_a0 = vec![0.73, 0.80, 0.83, 1.04, 1.38, 1.45, 1.46, 1.64, 1.89, 1.91];
    let sample_b0 = vec![0.74, 0.88, 0.90, 1.15, 1.21];
    let sample_a = sample_a0.into_iter().map(|x: f64| (x * 100.) as u64).collect::<Vec<_>>();
    let sample_b = sample_b0.into_iter().map(|x: f64| (x * 100.) as u64).collect::<Vec<_>>();
    let mut hist_a = new_hist(200, 3);
    let mut hist_b = new_hist(200, 3);
    for v in &sample_a {
        record(&mut hist_a, *v);
    }
    for v in &sample_b {
        record(&mut hist_b, *v);
    }

    let expected_w = 30.;
    let sums = wilcoxon_rank_sum_ties_sum_prod(&hist_a, &hist_b).unwrap();
    let actual_w = sums.twice_rank_sum_b as f64 / 2.;
    assert_eq!(expected_w, actual_w, "w comparison");
}

#[test]
fn test_book_data() {
    let (hist_a, hist_b) = data_hists(book_data(), 100, 200, 3);
    let exp_r_w = 35.;
    check_wilcoxon(&hist_a, &hist_b, AltHyp::Lt, exp_r_w, 0.8897, Hyp::Null);
    check_wilcoxon(&hist_a, &hist_b, AltHyp::Ne, exp_r_w, 0.2207, Hyp::Null);
    check_wilcoxon(&hist_a, &hist_b, AltHyp::Gt, exp_r_w, 0.1103, Hyp::Null);
}

#[test]
fn test_contrived_data() {
    let (hist_a, hist_b) = data_hists(contrived_data(), 1, 300, 3);
    let exp_r_w = 1442.5;
    check_wilcoxon(&hist_a, &hist_b, AltHyp::Lt, exp_r_w, 0.6675, Hyp::Null);
    check_wilcoxon(&hist_a, &hist_b, AltHyp::Ne, exp_r_w, 0.6649, Hyp::Null);
    check_wilcoxon(&hist_a, &hist_b, AltHyp::Gt, exp_r_w, 0.3325, Hyp::Null);
}

#[test]
fn test_shifted_contrived_data() {
    let (hist_a, hist_b) = data_hists(shifted_contrived_data(), 1, 300, 3);
    let exp_r_w = 840.;
    check_wilcoxon(&hist_a, &hist_b, AltHyp::Lt, exp_r_w, 0.0002987, Hyp::Alt(AltHyp::Lt));
    check_wilcoxon(&hist_a, &hist_b, AltHyp::Ne, exp_r_w, 0.0005974, Hyp::Alt(AltHyp::Ne));
    check_wilcoxon(&hist_a, &hist_b, AltHyp::Gt, exp_r_w, 0.9997, Hyp::Null);
}

fn expand_sample(sample: &[u64], delta: u64, nrepeats: usize) -> Vec<u64> {
    let mut cumulative = Vec::with_capacity(sample.len() * nrepeats);
    let mut curr = Vec::from(sample);
    for _ in 0..nrepeats {
        let next = curr.iter().map(|x| x + delta).collect::<Vec<_>>();
        cumulative.append(&mut next.clone());
        curr = next;
    }
    cumulative
}

/// Checks the statistics of two samples: twice the rank sum of `b`, and the doubled
/// Mann-Whitney statistics of `b`, of `a`, and their minimum.
fn process_samples(sample_a: &[u64], sample_b: &[u64], twice_w: u128, twice_u_b: u128, twice_u_a: u128) {
    let (hist_a, hist_b) = sample_hists(sample_a, sample_b, 300, 3);
    let sums = wilcoxon_rank_sum_ties_sum_prod(&hist_a, &hist_b).unwrap();
    assert_eq!(sums.n_a as usize, sample_a.len());
    assert_eq!(sums.n_b as usize, sample_b.len());
    assert_eq!(sums.twice_rank_sum_b, twice_w, "rank sum of b");
    let n = (sample_a.len() + sample_b.len()) as u128;
    assert_eq!(sums.twice_rank_sum_a + sums.twice_rank_sum_b, n * (n + 1), "rank sums");
    assert_eq!(mann_whitney_u_b(&hist_a, &hist_b), Some(twice_u_b));
    assert_eq!(mann_whitney_u_a(&hist_a, &hist_b), Some(twice_u_a));
    assert_eq!(mann_whitney_u(&hist_a, &hist_b), Some(twice_u_a.min(twice_u_b)));

    let (items, ties) = wilcoxon_ranked_items_ties_sum_prod(&hist_a, &hist_b).unwrap();
    assert_eq!(ties, sums.ties_sum_prod);
    let twice_sum: u128 = items.iter().map(|it| it.count as u128 * it.twice_rank).sum();
    assert_eq!(twice_sum, twice_w);
}

#[test]
fn wilcoxon_test_book_data() {
    let sample_a0 = vec![0.73, 0.80, 0.83, 1.04, 1.38, 1.45, 1.46, 1.64, 1.89, 1.91];
    let sample_b0 = vec![0.74, 0.88, 0.90, 1.15, 1.21];
    let sample_a = sample_a0.into_iter().map(|x: f64| (x * 100.) as u64).collect::<Vec<_>>();
    let sample_b = sample_b0.into_iter().map(|x: f64| (x * 100.) as u64).collect::<Vec<_>>();
    process_samples(&sample_a, &sample_b, 60, 30, 70);
}

#[test]
fn wilcoxon_test_contrived_data() {
    let sample_a0 = vec![85, 90, 78, 92, 88, 76, 95, 89, 91, 82];
    let sample_b0 = vec![70, 85, 80, 90, 75, 88, 92, 79, 86, 81, 92];

    {
        let (hist_a, hist_b) = sample_hists(&sample_a0, &sample_b0, 300, 3);
        let (items, _) = wilcoxon_ranked_items_ties_sum_prod(&hist_a, &hist_b).unwrap();
        let exp_ranks_b = [1., 2., 5., 6., 7., 9.5, 11., 12.5, 15.5, 19., 19.];
        let mut ranks_b = Vec::new();
        for it in &items {
            for _ in 0..it.count {
                ranks_b.push(it.twice_rank as f64 / 2.);
            }
        }
        assert_eq!(ranks_b, exp_ranks_b.to_vec());
        process_samples(&sample_a0, &sample_b0, 215, 83, 137);
    }

    {
        let delta = 30;
        let nrepeats = 5;
        let sample_a = expand_sample(&sample_a0, delta, nrepeats);
        let sample_b = expand_sample(&sample_b0, delta, nrepeats);
        process_samples(&sample_a, &sample_b, 5695, 2615, 2885);
    }

    {
        let delta = 30;
        let nrepeats = 5;
        let sample_a = expand_sample(&sample_a0, delta, nrepeats);
        let sample_b = expand_sample(&sample_b0, delta, nrepeats);
        let shift = 35;
        let sample_b = sample_b.iter().map(|x| x + shift).collect::<Vec<_>>();
        process_samples(&sample_a, &sample_b, 6900, 3820, 1680);
    }
}

#[test]
fn test() {
    let sample_a = [85, 90, 78, 92, 88, 76, 95, 89, 91, 82];
    let sample_b = [70, 85, 80, 90, 75, 88, 92, 79, 86, 81];

    let exp_ranks_b = [1.0, 2.0, 5.0, 6.0, 7.0, 9.5, 11.0, 12.5, 15.5, 18.5];
    let exp_rank_sum_b = exp_ranks_b.iter().sum::<f64>();

    let mut hist_a = new_hist(100, 2);
    let mut hist_b = new_hist(100, 2);
    for i in 0..sample_a.len() {
        record(&mut hist_a, sample_a[i]);
        record(&mut hist_b, sample_b[i]);
    }

    let (items, _) = wilcoxon_ranked_items_ties_sum_prod(&hist_a, &hist_b).unwrap();
    let rank_sum_b = items.iter().map(|y| y.count as f64 * y.twice_rank as f64 / 2.).sum::<f64>();
    assert_eq!(exp_rank_sum_b, rank_sum_b);
}

#[test]
fn ranked_items_of_recorded_values() {
    // a = {1, 2, 2}, b = {2, 3}: pooled 1, 2, 2, 2, 3 with ranks 1, 3, 3, 3, 5.
    let a = vec![(1u64, 1u64), (2, 2)];
    let b = vec![(2u64, 1u64), (3, 1)];
    let (items, ties) = wilcoxon_ranked_items(&a, &b);
    assert_eq!(items.len(), 2);
    assert_eq!((items[0].value, items[0].count, items[0].twice_rank), (2, 1, 6));
    assert_eq!((items[1].value, items[1].count, items[1].twice_rank), (3, 1, 10));
    let sums = wilcoxon_rank_sums(&a, &b);
    assert_eq!(sums.n_a, 3);
    assert_eq!(sums.n_b, 2);
    assert_eq!(sums.twice_rank_sum_b, 16);
    assert_eq!(sums.twice_rank_sum_a, 14);
    assert_eq!(sums.twice_rank_sum_a + sums.twice_rank_sum_b, 5 * 6);
    assert_eq!(ties, sums.ties_sum_prod);
    // one group of three tied values: 3^3 - 3
    assert_eq!(ties, Some(24));
}

#[test]
fn tied_value_counted_once_in_ties_sum() {
    let a = vec![(1u64, 1u64), (2, 1)];
    let b = vec![(2u64, 1u64), (3, 1)];
    let sums = wilcoxon_rank_sums(&a, &b);
    assert_eq!(sums.twice_rank_sum_b, 13);
    assert_eq!(sums.ties_sum_prod, Some(6));
}

#[test]
fn empty_samples_have_zero_rank_sums() {
    let a: Vec<(u64, u64)> = Vec::new();
    let b: Vec<(u64, u64)> = Vec::new();
    let sums = wilcoxon_rank_sums(&a, &b);
    assert_eq!((sums.n_a, sums.n_b, sums.twice_rank_sum_a, sums.twice_rank_sum_b), (0, 0, 0, 0));
    assert_eq!(sums.ties_sum_prod, Some(0));
}
