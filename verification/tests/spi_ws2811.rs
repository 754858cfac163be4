use displaylight::spi_ws2811::{
    convert_color_to_buffer, Ws2811SpiDmaDriver, WS2811_0BIT, WS2811_1BIT,
};
use displaylight::types::RGB;

const RED: RGB = RGB { r: 255, g: 0, b: 0 };
const GREEN: RGB = RGB { r: 0, g: 255, b: 0 };
const BLUE: RGB = RGB { r: 0, g: 0, b: 255 };
const WHITE: RGB = RGB { r: 255, g: 255, b: 255 };

#[test]
fn spi_ws2811_state_checks() {
    let colors = [RED, GREEN, BLUE, WHITE];
    let mut low_buff = vec![0u8; 4 * 3 * 8];
    convert_color_to_buffer(&colors, &mut low_buff);
    println!("{:x?}", low_buff);
}

#[test]
fn black_encodes_to_only_zero_bits() {
    let colors = [RGB { r: 0, g: 0, b: 0 }; 5];
    let mut buff = vec![0xAAu8; 5 * 24];
    convert_color_to_buffer(&colors, &mut buff);
    assert!(buff.iter().all(|&b| b == WS2811_0BIT));
}

#[test]
fn white_encodes_to_only_one_bits() {
    let colors = [WHITE; 5];
    let mut buff = vec![0u8; 5 * 24];
    convert_color_to_buffer(&colors, &mut buff);
    assert!(buff.iter().all(|&b| b == WS2811_1BIT));
}

#[test]
fn channel_order_is_green_red_blue() {
    let mut buff = vec![0u8; 24];
    convert_color_to_buffer(&[RED], &mut buff);
    // Green channel first (all zero), then red (all ones), then blue.
    assert!(buff[0..8].iter().all(|&b| b == WS2811_0BIT));
    assert!(buff[8..16].iter().all(|&b| b == WS2811_1BIT));
    assert!(buff[16..24].iter().all(|&b| b == WS2811_0BIT));
}

#[test]
fn bits_come_most_significant_first() {
    let mut buff = vec![0u8; 24];
    // g = 0b1000_0001: first and last bit of the green group are ones.
    convert_color_to_buffer(&[RGB { r: 0, g: 0x81, b: 0 }], &mut buff);
    assert_eq!(buff[0], WS2811_1BIT);
    assert!(buff[1..7].iter().all(|&b| b == WS2811_0BIT));
    assert_eq!(buff[7], WS2811_1BIT);
}

#[test]
fn buffer_length_matches_calculate_buffer_size() {
    for led_count in [0usize, 1, 2, 37, 228] {
        let driver = Ws2811SpiDmaDriver::new(led_count);
        assert_eq!(
            driver.buffer().len(),
            Ws2811SpiDmaDriver::calculate_buffer_size(led_count)
        );
        assert_eq!(driver.buffer().len(), (led_count + 8) * 24);
    }
}

#[test]
fn new_driver_is_ready_with_a_dark_frame() {
    let driver = Ws2811SpiDmaDriver::new(3);
    assert!(driver.is_ready());
    assert!(driver.buffer().iter().all(|&b| b == 0));
}

#[test]
fn prepare_writes_after_the_preamble() {
    let mut driver = Ws2811SpiDmaDriver::new(2);
    driver.prepare(&[WHITE, WHITE]);
    // One LED of preamble zeros, then the two encoded LEDs, then latch
    // padding.
    assert!(driver.buffer()[0..24].iter().all(|&b| b == 0));
    assert!(driver.buffer()[24..72].iter().all(|&b| b == WS2811_1BIT));
    assert!(driver.buffer()[72..].iter().all(|&b| b == 0));
}

#[test]
fn prepare_while_in_flight_does_not_corrupt_the_buffer() {
    // The double-buffer safety property: an attempted prepare while the
    // hardware owns the buffer must leave it untouched.
    let mut driver = Ws2811SpiDmaDriver::new(2);
    driver.prepare(&[WHITE, WHITE]);
    driver.update();
    assert!(!driver.is_ready());

    let checksum_before: u64 = driver.buffer().iter().map(|&b| b as u64).sum();
    driver.prepare(&[RGB { r: 0, g: 0, b: 0 }, RGB { r: 0, g: 0, b: 0 }]);
    let checksum_after: u64 = driver.buffer().iter().map(|&b| b as u64).sum();
    assert_eq!(checksum_before, checksum_after);
    assert!(driver.buffer()[24..72].iter().all(|&b| b == WS2811_1BIT));

    // Once the transfer completes, prepare works again.
    driver.complete_transfer();
    assert!(driver.is_ready());
    driver.prepare(&[RGB { r: 0, g: 0, b: 0 }, RGB { r: 0, g: 0, b: 0 }]);
    assert!(driver.buffer()[24..72].iter().all(|&b| b == WS2811_0BIT));
}

#[test]
fn prepare_filter_applies_gamma_while_encoding() {
    let gamma = displaylight::gamma::Gamma::generate(
        1.3f32.to_bits(),
        1.3f32.to_bits(),
        1.3f32.to_bits(),
    );
    let mut filtered = Ws2811SpiDmaDriver::new(1);
    filtered.prepare_filter(&[RGB { r: 128, g: 128, b: 128 }], &gamma);

    let corrected = gamma.apply_one(RGB { r: 128, g: 128, b: 128 });
    let mut direct = Ws2811SpiDmaDriver::new(1);
    direct.prepare(&[corrected]);
    assert_eq!(filtered.buffer(), direct.buffer());
}
