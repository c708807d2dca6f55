use ws2812_rust::{
    byte_to_spi_bits, Animation, Color, SpiConfig, Ws2812, Ws2812Error, LED_ONE, LED_ZERO,
    RESET_BYTES_COUNT, SCALE_ONE,
};

fn strip(n: usize) -> Ws2812 {
    Ws2812::new(SpiConfig::new(0, 0, n))
}

fn pulses(byte: u8) -> Vec<u8> {
    (0..8)
        .map(|i| if (byte >> (7 - i)) & 1 == 1 { LED_ONE } else { LED_ZERO })
        .collect()
}

#[test]
fn byte_to_spi_bits_msb_first() {
    assert_eq!(
        byte_to_spi_bits(0b1010_0001),
        [LED_ONE, LED_ZERO, LED_ONE, LED_ZERO, LED_ZERO, LED_ZERO, LED_ZERO, LED_ONE]
    );
    assert_eq!(byte_to_spi_bits(0), [0xC0; 8]);
    assert_eq!(byte_to_spi_bits(255), [0xFC; 8]);
}

#[test]
fn frame_length_for_many_counts() {
    for n in [0usize, 1, 2, 11, 30, 144] {
        let mut s = strip(n);
        assert_eq!(s.tx_buffer().len(), RESET_BYTES_COUNT + n * 24);
        s.fill(Color::white()).unwrap();
        s.render();
        assert_eq!(s.tx_buffer().len(), 42 + n * 24);
        s.render();
        assert_eq!(s.tx_buffer().len(), 42 + n * 24);
    }
}

#[test]
fn render_exact_frame() {
    let mut s = strip(2);
    s.set_led(0, Color::new(0x12, 0x34, 0x56)).unwrap();
    s.set_led(1, Color::new(0xFF, 0x00, 0x80)).unwrap();
    s.render();
    let mut expected = vec![0u8; 42];
    for b in [0x34u8, 0x12, 0x56, 0x00, 0xFF, 0x80] {
        expected.extend(pulses(b));
    }
    assert_eq!(s.tx_buffer(), &expected[..]);
}

#[test]
fn render_leaves_no_stale_bytes() {
    let mut s = strip(3);
    s.fill(Color::white()).unwrap();
    s.render();
    s.fill(Color::black()).unwrap();
    s.render();
    let tx = s.tx_buffer();
    assert!(tx[..42].iter().all(|&b| b == 0));
    assert!(tx[42..].iter().all(|&b| b == LED_ZERO));
}

#[test]
fn set_get_round_trip() {
    let mut s = strip(5);
    for i in 0..5 {
        let c = Color::new(i as u8, 2 * i as u8, 3 * i as u8 + 1);
        s.set_led(i, c).unwrap();
        assert_eq!(s.get_led(i).unwrap(), c);
    }
}

#[test]
fn set_led_out_of_range_changes_nothing() {
    let mut s = strip(3);
    s.fill(Color::red()).unwrap();
    let r = s.set_led(3, Color::blue());
    assert_eq!(r, Err(Ws2812Error::IndexOutOfRange { index: 3, len: 3 }));
    for i in 0..3 {
        assert_eq!(s.get_led(i).unwrap(), Color::red());
    }
    assert_eq!(
        s.get_led(7),
        Err(Ws2812Error::IndexOutOfRange { index: 7, len: 3 })
    );
}

#[test]
fn empty_strip() {
    let s = strip(0);
    assert!(s.is_empty());
    assert_eq!(s.len(), 0);
    assert!(matches!(
        s.get_led(0),
        Err(Ws2812Error::IndexOutOfRange { index: 0, len: 0 })
    ));
}

#[test]
fn set_leds_short_input_blackens_tail() {
    let mut s = strip(5);
    s.fill(Color::white()).unwrap();
    s.set_leds(&[Color::red(), Color::green()]).unwrap();
    assert_eq!(s.get_led(0).unwrap(), Color::red());
    assert_eq!(s.get_led(1).unwrap(), Color::green());
    for i in 2..5 {
        assert_eq!(s.get_led(i).unwrap(), Color::black());
    }
}

#[test]
fn set_leds_long_input_is_cut() {
    let mut s = strip(2);
    s.set_leds(&[Color::red(), Color::green(), Color::blue()]).unwrap();
    assert_eq!(s.get_led(0).unwrap(), Color::red());
    assert_eq!(s.get_led(1).unwrap(), Color::green());
    assert_eq!(s.len(), 2);
}

#[test]
fn clear_turns_all_off_and_renders() {
    let mut s = strip(4);
    s.fill(Color::white()).unwrap();
    s.render();
    s.clear();
    for i in 0..4 {
        assert_eq!(s.get_led(i).unwrap(), Color::black());
    }
    assert!(s.tx_buffer()[42..].iter().all(|&b| b == LED_ZERO));
}

#[test]
fn breathe_frames_and_position() {
    let mut s = strip(3);
    // 0.2 Hz at 30 fps: 150 frames per cycle
    s.start_breathe(Color::blue(), 200).unwrap();
    assert!(s.is_animating());
    assert_eq!(s.breathe_position(), Some((0, 150)));
    s.tick(SCALE_ONE);
    assert_eq!(s.breathe_position(), Some((1, 150)));
    for i in 0..3 {
        assert_eq!(s.get_led(i).unwrap(), Color::blue());
    }
    s.tick(SCALE_ONE / 2);
    for i in 0..3 {
        assert_eq!(s.get_led(i).unwrap(), Color::new(0, 0, 127));
    }
}

#[test]
fn breathe_rounds_frames_per_cycle() {
    let mut s = strip(1);
    // 30 / 0.7 = 42.86 frames
    s.start_breathe(Color::red(), 700).unwrap();
    assert_eq!(s.breathe_position(), Some((0, 43)));
    // 30 / 4 = 7.5 frames, rounded half up
    s.start_breathe(Color::red(), 4000).unwrap();
    assert_eq!(s.breathe_position(), Some((0, 8)));
}

#[test]
fn breathe_wraps_after_a_cycle() {
    let mut s = strip(1);
    s.start_breathe(Color::red(), 5000).unwrap();
    assert_eq!(s.breathe_position(), Some((0, 6)));
    for _ in 0..6 {
        s.tick(SCALE_ONE);
    }
    assert_eq!(s.breathe_position(), Some((0, 6)));
}

#[test]
fn breathe_too_fast_is_refused() {
    let mut s = strip(3);
    s.start_chase(Color::red(), 1000, false).unwrap();
    let r = s.start_breathe(Color::red(), 6000);
    assert_eq!(r, Err(Ws2812Error::FrequencyTooHigh { frames_per_cycle: 5 }));
    assert!(!s.is_animating());
    assert!(s.start_breathe(Color::red(), 5455).is_err());
    assert!(!s.is_animating());
    assert!(s.start_breathe(Color::red(), 5454).is_ok());
    assert!(s.is_animating());
}

#[test]
fn zero_frequency_is_refused() {
    let mut s = strip(3);
    assert_eq!(s.start_breathe(Color::red(), 0), Err(Ws2812Error::ZeroFrequency));
    assert_eq!(s.start_chase(Color::red(), 0, true), Err(Ws2812Error::ZeroFrequency));
    assert!(!s.is_animating());
}

#[test]
fn chase_walks_the_strip() {
    let mut s = strip(3);
    // 30 / 5 Hz / 3 LEDs = 2 frames per LED
    s.start_chase(Color::green(), 5000, false).unwrap();
    assert_eq!(
        s.animation(),
        Some(Animation::Chase {
            color: Color::green(),
            frames_per_led: 2,
            total_frames: 6,
            frame: 0,
            clockwise: false
        })
    );
    let mut lit = Vec::new();
    for _ in 0..6 {
        s.tick(0);
        let on: Vec<usize> = (0..3)
            .filter(|&i| s.get_led(i).unwrap() == Color::green())
            .collect();
        assert_eq!(on.len(), 1);
        lit.push(on[0]);
    }
    assert_eq!(lit, vec![0, 0, 1, 1, 2, 2]);
}

#[test]
fn chase_clockwise_runs_backwards() {
    let mut s = strip(4);
    // 30 / 10 Hz / 4 LEDs = 0.75, rounded up to 1 frame per LED
    s.start_chase(Color::red(), 10_000, true).unwrap();
    let mut lit = Vec::new();
    for _ in 0..5 {
        s.tick(0);
        let on: Vec<usize> = (0..4)
            .filter(|&i| s.get_led(i).unwrap() == Color::red())
            .collect();
        lit.push(on[0]);
    }
    assert_eq!(lit, vec![3, 2, 1, 0, 3]);
}

#[test]
fn second_start_replaces_first() {
    let mut s = strip(4);
    s.start_breathe(Color::white(), 500).unwrap();
    s.tick(SCALE_ONE);
    s.start_chase(Color::red(), 7500, false).unwrap();
    assert!(matches!(s.animation(), Some(Animation::Chase { .. })));
    assert_eq!(s.breathe_position(), None);
    s.tick(SCALE_ONE);
    assert_eq!(s.get_led(0).unwrap(), Color::red());
    for i in 1..4 {
        assert_eq!(s.get_led(i).unwrap(), Color::black());
    }
}

#[test]
fn stop_is_idempotent_and_final() {
    let mut s = strip(3);
    s.start_breathe(Color::white(), 1000).unwrap();
    s.tick(SCALE_ONE / 3);
    s.stop_animation();
    s.stop_animation();
    assert!(!s.is_animating());
    let snapshot: Vec<Color> = (0..3).map(|i| s.get_led(i).unwrap()).collect();
    for _ in 0..10 {
        s.tick(SCALE_ONE);
    }
    let after: Vec<Color> = (0..3).map(|i| s.get_led(i).unwrap()).collect();
    assert_eq!(snapshot, after);
}
