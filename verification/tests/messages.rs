use displaylight::messages::{ColorData, Config, Message, MsgType, LEDS_PER_MESSAGE};
use displaylight::types::RGB;

#[test]
fn messages_test_config() {
    let c = Config {
        decay_time_delay_ms: 0xdeadbeef,
        decay_interval_us: 0x01020304,
        decay_amount: 0xF1F2F3F4,
        gamma_r: 0.33333f32.to_bits(),
        gamma_g: 1.0f32.to_bits(),
        gamma_b: 0.6f32.to_bits(),
    };
    let m = Message::Config(c);
    let b = m.as_bytes();
    let expected = [
        1u8, 0, 0, 0, 239, 190, 173, 222, 4, 3, 2, 1, 244, 243, 242, 241, 59, 170, 170, 62, 0, 0,
        128, 63, 154, 153, 25, 63, 0, 0, 0, 0, 0, 0, 0, 0, 0, 0, 0, 0, 0, 0, 0, 0, 0, 0, 0, 0, 0,
        0, 0, 0, 0, 0, 0, 0, 0, 0, 0, 0, 0, 0, 0, 0,
    ];
    println!("{:?}", b);
    assert_eq!(b.as_slice(), &expected);
}

#[test]
fn test_color() {
    let mut cd = ColorData::new(0x0102, 0xAB);
    for c in 0..ColorData::LEDS_PER_MESSAGE {
        cd.color[c] = RGB {
            r: c as u8 * 3 + 0,
            g: c as u8 * 3 + 1,
            b: c as u8 * 3 + 2,
        };
    }
    let msg = Message::Color(cd);

    let b = msg.as_bytes();
    let expected = [
        2u8, 0, 0, 0, 2, 1, 171, 0, 1, 2, 3, 4, 5, 6, 7, 8, 9, 10, 11, 12, 13, 14, 15, 16, 17, 18,
        19, 20, 21, 22, 23, 24, 25, 26, 27, 28, 29, 30, 31, 32, 33, 34, 35, 36, 37, 38, 39, 40, 41,
        42, 43, 44, 45, 46, 47, 48, 49, 50, 51, 52, 53, 54, 55, 56,
    ];
    println!("{:?}", b);
    assert_eq!(b.as_slice(), &expected);
}

#[test]
fn round_trip_nop() {
    let m = Message::Nop;
    let b = m.encode();
    assert_eq!(b.len(), 64);
    assert_eq!(Message::decode(&b), Some(Message::Nop));
}

#[test]
fn round_trip_config() {
    let c = Config {
        decay_time_delay_ms: 12345,
        decay_interval_us: 678,
        decay_amount: 9,
        gamma_r: 2.2f32.to_bits(),
        gamma_g: 1.3f32.to_bits(),
        gamma_b: 0.0f32.to_bits(),
    };
    let m = Message::Config(c);
    let b = m.encode();
    assert_eq!(Message::decode(&b), Some(m));
}

#[test]
fn round_trip_color() {
    let mut cd = ColorData::new(17, ColorData::SETTINGS_SHOW_AFTER);
    for i in 0..LEDS_PER_MESSAGE {
        cd.color[i] = RGB {
            r: (i * 7) as u8,
            g: (i * 11) as u8,
            b: (255 - i) as u8,
        };
    }
    let m = Message::Color(cd);
    let b = m.encode();
    assert_eq!(Message::decode(&b), Some(m));
}

#[test]
fn unknown_discriminant_is_rejected() {
    let mut b = vec![0u8; 64];
    b[0] = 3;
    assert!(Message::decode(&b).is_none());
    b[0] = 0xFF;
    assert!(Message::decode(&b).is_none());
}

#[test]
fn discriminants_match_the_wire_format() {
    assert_eq!(MsgType::NOP, 0);
    assert_eq!(MsgType::CONFIG, 1);
    assert_eq!(MsgType::COLOR, 2);
    assert_eq!(Message::LENGTH, 64);
    assert_eq!(LEDS_PER_MESSAGE, 19);
}

#[test]
fn default_config_matches_the_firmware_defaults() {
    let c = Config::default();
    assert_eq!(c.decay_time_delay_ms, 1000);
    assert_eq!(c.decay_interval_us, 1000);
    assert_eq!(c.decay_amount, 1);
    assert_eq!(c.gamma_r, 1.0f32.to_bits());
    assert_eq!(c.gamma_g, 1.3f32.to_bits());
    assert_eq!(c.gamma_b, 1.6f32.to_bits());
}

#[test]
fn decode_reads_little_endian_fields() {
    let mut b = vec![0u8; 64];
    b[0] = MsgType::CONFIG;
    b[4] = 0xE8;
    b[5] = 0x03; // decay_time_delay_ms = 1000
    b[8] = 0x01; // decay_interval_us = 1
    b[12] = 0xFF;
    b[13] = 0xFF;
    b[14] = 0xFF;
    b[15] = 0xFF; // decay_amount = u32::MAX
    match Message::decode(&b) {
        Some(Message::Config(c)) => {
            assert_eq!(c.decay_time_delay_ms, 1000);
            assert_eq!(c.decay_interval_us, 1);
            assert_eq!(c.decay_amount, u32::MAX);
            assert_eq!(c.gamma_r, 0);
        }
        other => panic!("expected a Config message, got {:?}", other),
    }
}
