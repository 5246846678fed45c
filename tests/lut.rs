use ledstrip::lut::{clut_index, sigmoid_index, Clut, Sigmoid, HUES, SIGMOID_SIZE, VALUES};

#[test]
fn sigmoid_index_saturates_at_both_ends() {
    assert_eq!(sigmoid_index(-1024), 0);
    assert_eq!(sigmoid_index(-5000), 0);
    assert_eq!(sigmoid_index(i64::MIN), 0);
    assert_eq!(sigmoid_index(1024), SIGMOID_SIZE - 1);
    assert_eq!(sigmoid_index(1023), SIGMOID_SIZE - 1);
    assert_eq!(sigmoid_index(i64::MAX), SIGMOID_SIZE - 1);
}

#[test]
fn sigmoid_index_of_zero_is_middle() {
    assert_eq!(sigmoid_index(0), 1024);
    assert_eq!(sigmoid_index(-1023), 1);
    assert_eq!(sigmoid_index(5), 1029);
}

#[test]
fn sigmoid_index_is_monotone() {
    let mut last = 0;
    for s in -1100i64..1100 {
        let i = sigmoid_index(s);
        assert!(i >= last);
        last = i;
    }
}

#[test]
fn sigmoid_reads_samples() {
    let s = Sigmoid::from_samples((0..SIGMOID_SIZE as u32).collect());
    assert_eq!(s.at(0), 1024);
    assert_eq!(s.at(-20000), 0);
    assert_eq!(s.at(20000), 2047);
    assert_eq!(s.at(-1), 1023);
}

#[test]
fn sigmoid_table_from_floats() {
    let hl = (SIGMOID_SIZE / 2) as f64;
    let lut: Vec<f64> = (0..SIGMOID_SIZE)
        .map(|i| 1.0 / (1.0 + (-((i as f64 - hl) / hl * 10.0)).exp()))
        .collect();
    let s = Sigmoid::from_samples(lut.clone());
    assert!((s.at(0) - 0.5).abs() < 0.01);
    assert_eq!(s.at(-1024), lut[0]);
    assert_eq!(s.at(1024), lut[SIGMOID_SIZE - 1]);
}

#[test]
fn clut_index_wraps_hue_and_clamps_lightness() {
    assert_eq!(clut_index(0, 0), 0);
    assert_eq!(clut_index(1, 3), 259);
    assert_eq!(clut_index(360, 3), 3);
    assert_eq!(clut_index(725, 0), 5 * 256);
    assert_eq!(clut_index(0, 256), 255);
    assert_eq!(clut_index(359, usize::MAX), HUES * VALUES - 1);
}

#[test]
fn clut_reads_cells() {
    let c = Clut::from_cells((0..(HUES * VALUES) as u32).map(|i| (i / 256, i % 256)).collect());
    assert_eq!(c.lookup(10, 20), (10, 20));
    assert_eq!(c.lookup(370, 300), (10, 255));
}
