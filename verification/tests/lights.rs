use displaylight::host;
use displaylight::lights::{set_color, set_limit, set_rgbw, Lights};
use displaylight::messages::ColorData;
use displaylight::spi_ws2811::Ws2811SpiDmaDriver;
use displaylight::types::RGB;

const BLACK: RGB = RGB { r: 0, g: 0, b: 0 };

#[test]
fn lights_state_checks() {
    let ssa: u8 = ColorData::SETTINGS_SHOW_AFTER;
    let led_state_msg = [
        2u8, 0, 0, 0, 15, 0, ssa, 0, 1, 2, 3, 4, 5, 6, 7, 8, 9, 10, 11, 12, 13, 14, 15, 16, 17,
        18, 19, 20, 21, 22, 23, 24, 25, 26, 27, 28, 29, 30, 31, 32, 33, 34, 35, 36, 37, 38, 39,
        40, 41, 42, 43, 44, 45, 46, 47, 48, 49, 50, 51, 52, 53, 54, 55, 56,
    ];
    let leds = vec![BLACK; 228];
    let mut lights = Lights::new(leds, 0);
    lights.incoming(&led_state_msg);
    assert_eq!(lights.get_leds()[0], BLACK);
}

#[test]
fn color_chunk_lands_at_its_offset() {
    let ssa: u8 = ColorData::SETTINGS_SHOW_AFTER;
    let mut msg = vec![0u8; 64];
    msg[0] = 2; // Color
    msg[4] = 15; // offset 15
    msg[6] = ssa;
    for i in 0..57 {
        msg[7 + i] = i as u8;
    }
    let mut lights = Lights::new(vec![BLACK; 228], 0);
    lights.incoming(&msg);
    // LEDs before the offset stay black; the chunk lands at 15..34.
    assert_eq!(lights.get_leds()[14], BLACK);
    assert_eq!(lights.get_leds()[15], RGB { r: 0, g: 1, b: 2 });
    assert_eq!(lights.get_leds()[16], RGB { r: 3, g: 4, b: 5 });
    assert_eq!(lights.get_leds()[33], RGB { r: 54, g: 55, b: 56 });
    assert_eq!(lights.get_leds()[34], BLACK);
    assert!(lights.needs_update());
}

#[test]
fn out_of_range_offset_is_clipped() {
    let mut msg = vec![0u8; 64];
    msg[0] = 2;
    msg[4] = 0xFF;
    msg[5] = 0xFF; // offset 65535, far past the strip
    msg[6] = ColorData::SETTINGS_SHOW_AFTER;
    for i in 0..57 {
        msg[7 + i] = 200;
    }
    let mut lights = Lights::new(vec![BLACK; 32], 0);
    lights.incoming(&msg);
    for i in 0..32 {
        assert_eq!(lights.get_leds()[i], BLACK);
    }
}

#[test]
fn set_all_sets_every_addressable_led() {
    // A Color message with SET_ALL and color[0] = {1,2,3} paints the whole
    // addressable range, sparing the sacrificial LED.
    let msg = host::fill(1, 2, 3).encode();
    let mut lights = Lights::new(vec![BLACK; 229], 1);
    lights.incoming(&msg);
    assert_eq!(lights.get_leds()[0], BLACK); // reserved sacrificial LED
    for i in 1..229 {
        assert_eq!(lights.get_leds()[i], RGB { r: 1, g: 2, b: 3 });
    }
    assert!(lights.needs_update());
}

#[test]
fn bad_payload_is_discarded() {
    let mut msg = vec![0u8; 64];
    msg[0] = 77; // unknown discriminant
    let mut lights = Lights::new(vec![RGB { r: 9, g: 9, b: 9 }; 8], 0);
    lights.incoming(&msg);
    for i in 0..8 {
        assert_eq!(lights.get_leds()[i], RGB { r: 9, g: 9, b: 9 });
    }
    assert!(!lights.needs_update());
}

#[test]
fn decay_after_inactivity() {
    // With the default configuration (decay after 1000 ms, every 1000 us,
    // amount 1), advancing the clock by 1000 ms plus 5000 us with no input
    // decreases every channel by exactly 5.
    let mut lights = Lights::new(vec![RGB { r: 10, g: 10, b: 10 }; 10], 0);
    lights.clock_update(1_000_000);
    lights.update_decay();
    assert!(!lights.needs_update());
    for _ in 0..5000 {
        lights.clock_update(1);
        lights.update_decay();
    }
    for i in 0..10 {
        assert_eq!(lights.get_leds()[i], RGB { r: 5, g: 5, b: 5 });
    }
    assert!(lights.needs_update());
}

#[test]
fn decay_saturates_at_black() {
    let mut lights = Lights::new(vec![RGB { r: 2, g: 0, b: 1 }; 4], 0);
    lights.clock_update(1_000_000);
    for _ in 0..5000 {
        lights.clock_update(1);
        lights.update_decay();
    }
    for i in 0..4 {
        assert_eq!(lights.get_leds()[i], BLACK);
    }
}

#[test]
fn two_chunks_one_transfer() {
    // Two Color chunks covering LEDs [0..19) and [19..38), where only the
    // second carries SHOW_AFTER, trigger exactly one transfer.
    let pixels = vec![RGB { r: 4, g: 5, b: 6 }; 38];
    let msgs = host::set_leds(&pixels);
    assert_eq!(msgs.len(), 2);

    let mut lights = Lights::new(vec![BLACK; 38], 0);
    let mut driver = Ws2811SpiDmaDriver::new(38);

    lights.incoming(&msgs[0].encode());
    lights.perform_update(&mut driver);
    // First chunk carries no SHOW_AFTER: nothing starts.
    assert!(driver.is_ready());

    lights.incoming(&msgs[1].encode());
    lights.perform_update(&mut driver);
    // Second chunk completes the frame: exactly one transfer is in flight.
    assert!(!driver.is_ready());

    // Until the hardware reports completion, nothing else starts or tears
    // the buffer.
    let snapshot = driver.buffer().clone();
    lights.perform_update(&mut driver);
    assert!(!driver.is_ready());
    assert_eq!(driver.buffer(), &snapshot);

    // After completion there is no pending update, so no second transfer.
    driver.complete_transfer();
    lights.perform_update(&mut driver);
    assert!(driver.is_ready());
}

#[test]
fn config_message_replaces_configuration() {
    let cfg = displaylight::messages::Config {
        decay_time_delay_ms: 1,
        decay_interval_us: 1,
        decay_amount: 200,
        gamma_r: 1.0f32.to_bits(),
        gamma_g: 1.0f32.to_bits(),
        gamma_b: 1.0f32.to_bits(),
    };
    let msg = host::set_config(&cfg).encode();
    let mut lights = Lights::new(vec![RGB { r: 250, g: 250, b: 250 }; 4], 0);
    lights.incoming(&msg);
    // With the new aggressive decay, one step wipes the strip.
    lights.clock_update(2000);
    lights.update_decay();
    for i in 0..4 {
        assert_eq!(lights.get_leds()[i], RGB { r: 50, g: 50, b: 50 });
    }
}

#[test]
fn helpers_set_color_limit_and_pattern() {
    let mut leds = vec![BLACK; 8];
    set_color(&mut leds, &RGB { r: 200, g: 150, b: 100 });
    assert_eq!(leds[7], RGB { r: 200, g: 150, b: 100 });

    set_limit(&mut leds, 120);
    assert_eq!(leds[0], RGB { r: 120, g: 120, b: 100 });

    set_rgbw(&mut leds, 1);
    assert_eq!(leds[0], RGB { r: 0, g: 255, b: 0 }); // green at phase 1
    assert_eq!(leds[3], RGB { r: 255, g: 0, b: 0 }); // red at phase 0
    assert_eq!(leds[6], RGB { r: 255, g: 255, b: 255 }); // white at phase 3
}
