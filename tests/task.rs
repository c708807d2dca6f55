use ws2812_rust::{
    Color, LedStripStatus, SetLedStripStatusEvent, SpiConfig, Ws2812, Ws2812Error, LED_ONE,
    LED_ZERO, SCALE_ONE,
};

#[test]
fn enable_then_disable_end_to_end() {
    let mut s = Ws2812::new(SpiConfig::new(0, 1, 11));
    let on = SetLedStripStatusEvent {
        enable: true,
        status: Some(LedStripStatus {
            frequency_mhz: 200,
            scale: SCALE_ONE / 2,
            red: 0,
            green: 0,
            blue: 255,
        }),
    };
    assert_eq!(s.apply_event(&on), Ok(()));
    assert_eq!(s.breathe_position(), Some((0, 150)));
    // first frame of the cycle: cos(0) gives full intensity
    s.tick(SCALE_ONE);
    s.render();
    let tx = s.tx_buffer();
    assert_eq!(tx.len(), 42 + 11 * 24);
    assert!(tx[..42].iter().all(|&b| b == 0));
    // blue at 127 = 0b0111_1111 after the green and red bytes
    for led in 0..11 {
        let base = 42 + 24 * led;
        assert!(tx[base..base + 16].iter().all(|&b| b == LED_ZERO));
        assert_eq!(tx[base + 16], LED_ZERO);
        assert!(tx[base + 17..base + 24].iter().all(|&b| b == LED_ONE));
    }
    // a dimmer frame keeps blue between 0 and 127
    s.tick(SCALE_ONE / 5);
    for i in 0..11 {
        let c = s.get_led(i).unwrap();
        assert_eq!((c.r, c.g), (0, 0));
        assert!(c.b <= 127);
    }

    let off = SetLedStripStatusEvent { enable: false, status: None };
    assert_eq!(s.apply_event(&off), Ok(()));
    assert!(!s.is_animating());
    s.render();
    let tx = s.tx_buffer();
    assert!(tx[..42].iter().all(|&b| b == 0));
    assert!(tx[42..].iter().all(|&b| b == LED_ZERO));
}

#[test]
fn enable_without_status_is_refused() {
    let mut s = Ws2812::new(SpiConfig::new(0, 1, 2));
    s.fill(Color::red()).unwrap();
    let e = SetLedStripStatusEvent { enable: true, status: None };
    assert_eq!(s.apply_event(&e), Err(Ws2812Error::MissingStatus));
    assert_eq!(s.get_led(1).unwrap(), Color::red());
}

#[test]
fn enable_fills_every_led_with_scaled_color() {
    let mut s = Ws2812::new(SpiConfig::new(0, 1, 3));
    let e = SetLedStripStatusEvent {
        enable: true,
        status: Some(LedStripStatus {
            frequency_mhz: 1000,
            scale: SCALE_ONE / 4,
            red: 200,
            green: 100,
            blue: 40,
        }),
    };
    s.apply_event(&e).unwrap();
    for i in 0..3 {
        assert_eq!(s.get_led(i).unwrap(), Color::new(50, 25, 10));
    }
}

#[test]
fn enable_too_fast_reports_frequency() {
    let mut s = Ws2812::new(SpiConfig::new(0, 1, 3));
    let e = SetLedStripStatusEvent {
        enable: true,
        status: Some(LedStripStatus {
            frequency_mhz: 10_000,
            scale: SCALE_ONE,
            red: 1,
            green: 2,
            blue: 3,
        }),
    };
    assert_eq!(
        s.apply_event(&e),
        Err(Ws2812Error::FrequencyTooHigh { frames_per_cycle: 3 })
    );
    assert!(!s.is_animating());
    assert_eq!(s.get_led(0).unwrap(), Color::new(1, 2, 3));
}
