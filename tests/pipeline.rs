use circular_law::frames::frame_lerp;
use circular_law::interpolate::scale_coupling;
use circular_law::layout::corner_index;
use circular_law::tracker::track;
use nalgebra::{Complex, DMatrix};
use rand::distributions::Standard;
use rand::{Rng, SeedableRng};
use rand_pcg::Pcg64;

fn random_matrix(n: usize, seed: u64) -> DMatrix<f64> {
    let rng = Pcg64::seed_from_u64(seed);
    let mut mat = DMatrix::from_iterator(n, n, rng.sample_iter(Standard).take(n * n));
    mat.add_scalar_mut(-0.5);
    mat.scale_mut(12f64.sqrt());
    mat
}

fn spectrum(mat: &DMatrix<f64>) -> Vec<Complex<f64>> {
    let mut ev = mat.complex_eigenvalues();
    ev.unscale_mut((mat.nrows() as f64).sqrt());
    ev.iter().copied().collect()
}

fn interpolate(base: &DMatrix<f64>, lerp: f64) -> DMatrix<f64> {
    let n = base.nrows();
    let v = scale_coupling(&base.as_slice().to_vec(), n, |x: f64| x * lerp);
    DMatrix::from_vec(n, n, v)
}

fn sorted(mut v: Vec<Complex<f64>>) -> Vec<Complex<f64>> {
    v.sort_by(|a, b| a.re.partial_cmp(&b.re).unwrap().then(a.im.partial_cmp(&b.im).unwrap()));
    v
}

#[test]
fn generator_is_reproducible() {
    let a = random_matrix(40, 116);
    let b = random_matrix(40, 116);
    let bits_a: Vec<u64> = a.iter().map(|x| x.to_bits()).collect();
    let bits_b: Vec<u64> = b.iter().map(|x| x.to_bits()).collect();
    assert_eq!(bits_a, bits_b);
    assert_ne!(a, random_matrix(40, 117));
}

#[test]
fn generator_mean_and_variance() {
    let m = random_matrix(1000, 116);
    let len = m.len() as f64;
    let mean = m.iter().sum::<f64>() / len;
    let var = m.iter().map(|x| (x - mean) * (x - mean)).sum::<f64>() / len;
    assert!(mean.abs() < 0.05, "mean {}", mean);
    assert!((var - 1.0).abs() < 0.1, "variance {}", var);
}

#[test]
fn normalized_spectrum_fills_unit_disk() {
    let n = 200;
    let ev = spectrum(&random_matrix(n, 116));
    assert_eq!(ev.len(), n);
    let inside = ev.iter().filter(|z| z.norm_sqr().sqrt() <= 1.15).count();
    assert!(inside * 100 >= 95 * n, "{} of {} inside", inside, n);
}

#[test]
fn interpolate_at_one_keeps_base() {
    let base = random_matrix(30, 116);
    let m = interpolate(&base, 1.0);
    assert_eq!(m, base);
}

#[test]
fn interpolate_at_half_scales_last_row_and_column() {
    // 3x3, column-major
    let base: Vec<f64> = vec![1.0, 2.0, 3.0, 4.0, 5.0, 6.0, 7.0, 8.0, 9.0];
    let r = scale_coupling(&base, 3, |x: f64| x * 0.5);
    assert_eq!(r, vec![1.0, 2.0, 1.5, 4.0, 5.0, 3.0, 3.5, 4.0, 9.0]);
}

#[test]
fn interpolate_one_by_one_is_unchanged() {
    let r = scale_coupling(&vec![2.5f64], 1, |x: f64| x * 0.0);
    assert_eq!(r, vec![2.5]);
}

#[test]
fn interpolate_at_zero_isolates_corner_eigenvalue() {
    let n = 20;
    let base = random_matrix(n, 116);
    let m = interpolate(&base, 0.0);
    for i in 0..n - 1 {
        assert_eq!(m[(i, n - 1)], 0.0);
        assert_eq!(m[(n - 1, i)], 0.0);
    }
    let corner = base.as_slice()[corner_index(n)] / (n as f64).sqrt();
    let ev = spectrum(&m);
    let prev = Complex::new(corner, 0.0);
    let keys: Vec<u64> = ev.iter().map(|z| (z - prev).norm_sqr().to_bits()).collect();
    let (_, z) = track(&ev, &keys);
    assert!((z.re - corner).abs() < 1e-9 && z.im.abs() < 1e-9, "{} vs {}", z, corner);
}

#[test]
fn golden_spectrum_seed_42() {
    let m = random_matrix(5, 42);
    let expected_matrix: [f64; 25] = [
        -0.94738842836448678, -0.90376093544597369, 0.90355343924182885, 0.096439402019254758,
        1.6297777721703695, -0.4314099264568883, -1.0811173571093737, 0.085416649973728248,
        1.0481976433468367, -0.44736472595803228, -0.91330596190145907, 1.4848406996410843,
        -0.12920770695987127, -0.20695423212466066, -0.64920887017935669, -1.4226338658156539,
        0.19666579241549564, -1.0018303538117601, 0.89606588685605171, -0.2393450295260417,
        1.7191858678019822, -0.76434736105782386, -1.0230571516167919, -1.7180032648931656,
        -0.23510223672201885,
    ];
    for (a, b) in m.as_slice().iter().zip(expected_matrix.iter()) {
        assert!((a - b).abs() < 1e-12, "{} vs {}", a, b);
    }
    let expected = [
        Complex::new(-0.834049604280, -0.391388079000),
        Complex::new(-0.834049604280, 0.391388079000),
        Complex::new(-0.405727028297, 0.0),
        Complex::new(0.585457916634, 0.0),
        Complex::new(0.819001441684, 0.0),
    ];
    let got = sorted(spectrum(&m));
    assert_eq!(got.len(), 5);
    for (g, e) in got.iter().zip(expected.iter()) {
        assert!((g.re - e.re).abs() < 1e-6 && (g.im - e.im).abs() < 1e-6, "{} vs {}", g, e);
    }
}

#[test]
fn two_frames_end_on_base_spectrum() {
    let n = 12;
    let base = random_matrix(n, 116);
    let steps = 2;
    let mut highlighted = Complex::new(base[(n - 1, n - 1)], 0.0) / (n as f64).sqrt();
    let mut lerps = Vec::new();
    let mut last = Vec::new();
    for s in 0..steps {
        let l = frame_lerp(s, steps);
        let lerp = l.num as f64 / l.den as f64;
        lerps.push(lerp);
        let ev = spectrum(&interpolate(&base, lerp));
        let keys: Vec<u64> = ev.iter().map(|z| (z - highlighted).norm_sqr().to_bits()).collect();
        highlighted = track(&ev, &keys).1;
        last = ev;
    }
    assert_eq!(lerps, vec![0.0, 1.0]);
    assert_eq!(last, spectrum(&base));
}
