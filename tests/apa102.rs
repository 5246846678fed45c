use ledstrip::apa102::{Apa102, ARGB8};

fn expected_size(l: usize) -> usize {
    4 * (l + 1) + 6 + l / 16
}

#[test]
fn buffer_size_follows_strip_length() {
    for l in [0u16, 1, 15, 16, 17, 144, 1000] {
        let leds = Apa102::new(l);
        assert_eq!(leds.get_buffer().len(), expected_size(l as usize));
    }
}

#[test]
fn buffer_size_of_largest_strip() {
    let leds = Apa102::new(u16::MAX);
    assert_eq!(leds.get_buffer().len(), 4 * 65536 + 6 + 4095);
}

#[test]
fn new_buffer_is_blank_but_end_marker() {
    let leds = Apa102::new(144);
    let buf = leds.get_buffer();
    for (i, b) in buf.iter().enumerate() {
        if i == 4 * 145 {
            assert_eq!(*b, 0xFF);
        } else {
            assert_eq!(*b, 0);
        }
    }
}

#[test]
fn empty_strip_has_only_framing() {
    let leds = Apa102::new(0);
    assert_eq!(leds.get_buffer(), &vec![0, 0, 0, 0, 0xFF, 0, 0, 0, 0, 0]);
}

#[test]
fn update_writes_brightness_blue_green_red() {
    let mut leds = Apa102::new(2);
    let frame = vec![ARGB8::new(31, 10, 20, 30), ARGB8::new(0, 1, 2, 3)];
    leds.update(&frame);
    assert_eq!(
        leds.get_buffer(),
        &vec![0, 0, 0, 0, 0xFF, 30, 20, 10, 0xE0, 3, 2, 1, 0xFF, 0, 0, 0, 0, 0]
    );
}

#[test]
fn brightness_marker_bits_always_set() {
    let mut leds = Apa102::new(3);
    let frame = vec![ARGB8::new(5, 0, 0, 0), ARGB8::new(0x1F, 0, 0, 0), ARGB8::new(0xFF, 0, 0, 0)];
    leds.update(&frame);
    let buf = leds.get_buffer();
    assert_eq!(buf[4], 0xE5);
    assert_eq!(buf[8], 0xFF);
    assert_eq!(buf[12], 0xFF);
}

#[test]
fn update_keeps_framing_and_ignores_extra_pixels() {
    let mut leds = Apa102::new(16);
    let frame: Vec<ARGB8> = (0..20u8).map(|i| ARGB8::new(31, i, i, i)).collect();
    leds.update(&frame);
    let buf = leds.get_buffer();
    assert_eq!(buf.len(), 4 * 17 + 7);
    assert_eq!(&buf[0..4], &[0, 0, 0, 0]);
    assert_eq!(buf[4 * 17], 0xFF);
    assert!(buf[4 * 17 + 1..].iter().all(|b| *b == 0));
    assert_eq!(&buf[4 * 16..4 * 17], &[0xFF, 15, 15, 15]);
}

#[test]
fn second_update_replaces_first() {
    let mut leds = Apa102::new(1);
    leds.update(&[ARGB8::new(31, 9, 9, 9)]);
    leds.update(&[ARGB8::new(2, 1, 2, 3)]);
    assert_eq!(leds.get_buffer(), &vec![0, 0, 0, 0, 0xE2, 3, 2, 1, 0xFF, 0, 0, 0, 0, 0]);
}
