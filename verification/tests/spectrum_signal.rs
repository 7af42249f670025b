use app_cores::spectrum::analyzer::SpectrumAnalyzer;
use app_cores::spectrum::config::AnalyzerConfig;
use app_cores::spectrum::level::UNIT;
use app_cores::spectrum::transform::raw_spectrum;
use app_cores::spectrum::transport::Transport;
use app_cores::spectrum::window::{on_buffer, SampleWindow};
use rustfft::num_complex::Complex;
use rustfft::FftPlanner;

/// Hann window, forward transform, magnitude over the square root of the
/// length, decibels; one reading per transform bin, in thousandths.
fn decibels_of(samples: &[f32]) -> Vec<i32> {
    let n = samples.len();
    let mut windowed: Vec<Complex<f32>> = samples
        .iter()
        .enumerate()
        .map(|(i, &x)| {
            let window =
                0.5 * (1.0 - (2.0 * std::f32::consts::PI * i as f32 / (n - 1) as f32).cos());
            Complex::new(x * window, 0.0)
        })
        .collect();
    FftPlanner::new().plan_fft_forward(n).process(&mut windowed);
    windowed
        .iter()
        .map(|c| {
            let magnitude = c.norm() / (n as f32).sqrt();
            let db = 20.0 * (magnitude + 1e-10).log10();
            (db * 1000.0).round() as i32
        })
        .collect()
}

fn sinusoid(amplitude: f32, bin: usize, n: usize) -> Vec<f32> {
    (0..n)
        .map(|i| {
            amplitude
                * (2.0 * std::f64::consts::PI * bin as f64 * i as f64 / n as f64).sin() as f32
        })
        .collect()
}

#[test]
fn silence_reads_far_below_the_floor() {
    let decibels = decibels_of(&vec![0.0; 960]);
    assert_eq!(decibels.len(), 960);
    for db in decibels {
        assert_eq!(db, -200_000);
    }
}

#[test]
fn silent_window_has_a_raw_spectrum_of_zeros() {
    let config = AnalyzerConfig::standard();
    let raw = raw_spectrum(&config, &decibels_of(&vec![0.0; 960]));
    assert_eq!(raw, vec![0; 480]);
}

#[test]
fn any_window_has_a_raw_spectrum_of_levels() {
    let config = AnalyzerConfig::standard();
    let mut seed = 12345u32;
    let noise: Vec<f32> = (0..960)
        .map(|_| {
            seed = seed.wrapping_mul(1_664_525).wrapping_add(1_013_904_223);
            (seed >> 8) as f32 / (1u32 << 23) as f32 - 1.0
        })
        .collect();
    for samples in [noise, sinusoid(1.0, 3, 960), sinusoid(1000.0, 100, 960), vec![1.0; 960]] {
        let raw = raw_spectrum(&config, &decibels_of(&samples));
        assert_eq!(raw.len(), 480);
        assert!(raw.iter().all(|level| *level <= UNIT));
    }
}

#[test]
fn sinusoid_peaks_at_its_own_bin() {
    let config = AnalyzerConfig::standard();
    for bin in [5usize, 20, 100, 400] {
        let decibels = decibels_of(&sinusoid(0.01, bin, 960));
        assert!(decibels[bin] > decibels[bin - 1]);
        assert!(decibels[bin] > decibels[bin + 1]);
        let raw = raw_spectrum(&config, &decibels);
        assert!(raw[bin] > raw[bin - 1]);
        assert!(raw[bin] > raw[bin + 1]);
        assert_eq!(raw.iter().max(), Some(&raw[bin]));
        // -22.228 dB on a range of 60 dB below 0 dB.
        assert!(raw[bin] > 629_000 && raw[bin] < 630_000);
    }
}

#[test]
fn full_scale_sinusoid_fills_its_bin() {
    let config = AnalyzerConfig::standard();
    let decibels = decibels_of(&sinusoid(1.0, 20, 960));
    assert!(decibels[20] > decibels[19] && decibels[20] > decibels[21]);
    // A magnitude of 239.75 / sqrt(960) is 17.772 dB.
    assert!((decibels[20] - 17_772).abs() <= 5);
    let raw = raw_spectrum(&config, &decibels);
    assert_eq!(raw[20], UNIT);
    assert!(raw[20] >= raw[19] && raw[20] >= raw[21]);
    assert_eq!(raw.iter().max(), Some(&UNIT));
    assert_eq!(raw[100], 0);
}

#[test]
fn end_to_end_silence_then_tone() {
    let config = AnalyzerConfig::new(960, 48_000, -60_000, 0, 200_000, 50_000)
        .expect("valid constants");
    let mut analyzer = SpectrumAnalyzer::new(config);
    let mut transport: Transport<SampleWindow<f32>> = Transport::new();

    on_buffer(&vec![0.0f32; 960], 960, &mut transport);
    let backlog: Vec<Vec<i32>> =
        transport.drain().iter().map(|w| decibels_of(w.samples())).collect();
    assert_eq!(backlog.len(), 1);
    assert!(analyzer.tick(&backlog));
    assert_eq!(analyzer.spectrum(), vec![0; 480]);
    assert_eq!(analyzer.peaks(), vec![0; 480]);
    assert_eq!(analyzer.frame_count(), 1);

    // 1000 Hz at 48 kHz and 960 samples is bin 20 exactly.
    let tone = sinusoid(1.0, 20, 960);
    on_buffer(&tone, 960, &mut transport);
    let backlog: Vec<Vec<i32>> =
        transport.drain().iter().map(|w| decibels_of(w.samples())).collect();
    assert!(analyzer.tick(&backlog));
    // One window at smoothing 0.2 lifts a silent bin to 0.2 at most.
    assert_eq!(analyzer.spectrum()[20], 200_000);
    assert_eq!(analyzer.peaks()[20], analyzer.spectrum()[20]);
    assert_eq!(analyzer.spectrum()[100], 0);

    // Three more windows of the tone bring the bin above one half.
    for _ in 0..3 {
        on_buffer(&tone, 960, &mut transport);
    }
    assert_eq!(transport.len(), 3);
    let backlog: Vec<Vec<i32>> =
        transport.drain().iter().map(|w| decibels_of(w.samples())).collect();
    assert!(transport.is_empty());
    assert!(analyzer.tick(&backlog));
    assert_eq!(analyzer.spectrum()[20], 590_400);
    assert!(analyzer.spectrum()[20] > 500_000);
    assert_eq!(analyzer.peaks()[20], analyzer.spectrum()[20]);
    assert_eq!(analyzer.peaks(), analyzer.spectrum());
    assert_eq!(analyzer.frame_count(), 3);

    // Back to silence: the spectrum falls by a fifth, the peak by 0.05.
    on_buffer(&vec![0.0f32; 960], 960, &mut transport);
    let backlog: Vec<Vec<i32>> =
        transport.drain().iter().map(|w| decibels_of(w.samples())).collect();
    assert!(analyzer.tick(&backlog));
    assert_eq!(analyzer.spectrum()[20], 472_320);
    assert_eq!(analyzer.peaks()[20], 540_400);
}
