use displaylight::border_detection::bisect;
use displaylight::capture::{get_config, CaptureSpecification};
use displaylight::host;
use displaylight::messages::{ColorData, Message};
use displaylight::types::RGB;

#[test]
fn lib_test_config() {
    let spec1: CaptureSpecification = CaptureSpecification {
        match_width: Some(3840),
        x: 1920,
        ..Default::default()
    };
    let spec2: CaptureSpecification = CaptureSpecification {
        ..Default::default()
    };
    let specs = [spec1, spec2];
    let res = get_config(3840, 1080, &specs);
    assert_eq!(res.x, 1920);
    assert_eq!(res.width, 3840 - 1920);
    assert_eq!(res.height, 1080);
}

#[test]
fn no_matching_entry_gives_the_whole_screen() {
    let spec1 = CaptureSpecification {
        match_width: Some(1234),
        ..Default::default()
    };
    let res = get_config(1920, 1080, &[spec1]);
    assert_eq!(res.x, 0);
    assert_eq!(res.y, 0);
    assert_eq!(res.width, 1920);
    assert_eq!(res.height, 1080);
}

#[test]
fn height_mismatch_skips_an_entry() {
    let spec1 = CaptureSpecification {
        match_width: Some(1920),
        match_height: Some(1200),
        display: 7,
        ..Default::default()
    };
    let spec2 = CaptureSpecification {
        match_height: Some(1080),
        display: 2,
        ..Default::default()
    };
    let res = get_config(1920, 1080, &[spec1, spec2]);
    assert_eq!(res.display, 2);
    assert_eq!(res.width, 1920);
    assert_eq!(res.height, 1080);
}

#[test]
fn explicit_extents_are_kept() {
    let spec1 = CaptureSpecification {
        width: 640,
        height: 480,
        x: 10,
        y: 20,
        ..Default::default()
    };
    let res = get_config(1920, 1080, &[spec1]);
    assert_eq!(res.width, 640);
    assert_eq!(res.height, 480);
    assert_eq!(res.x, 10);
    assert_eq!(res.y, 20);
}

#[test]
fn test_bisect() {
    //       0     1  2  3  4  5  6  7  8  9
    let z = [0u32, 0, 0, 0, 0, 1, 1, 1, 1, 1];
    let len = z.len() as u32 - 1;
    // Bisect to find the first index that is leq 5.
    let res = bisect(|i: u32| z[i as usize] == 0, 0u32, len);
    assert_eq!(res, 4);

    let res = bisect(|i: u32| z[i as usize] != 0, 0u32, len);
    assert_eq!(res, 5);

    let rz = z.iter().rev().collect::<Vec<&u32>>();
    let res = bisect(|i: u32| *rz[i as usize] == 0, 0u32, len);
    assert_eq!(res, 5);
    let res = bisect(|i: u32| *rz[i as usize] != 0, 0u32, len);
    assert_eq!(res, 4);

    // Completely black.
    let v = [0u32, 0, 0, 0, 0, 0, 0, 0, 0, 0, 0];

    // Bias low
    let res = bisect(|i: u32| v[i as usize] != 0, 0u32, len);
    assert_eq!(res, 0);

    // Bias high.
    let res = bisect(|i: u32| v[i as usize] == 0, 0u32, len);
    assert_eq!(res, len);

    // Completely white.
    let v = [1u32, 1, 1, 1, 1, 1, 1, 1, 1, 1, 1];

    // Bias low
    let res = bisect(|i: u32| v[i as usize] == 0, 0u32, len);
    assert_eq!(res, 0);

    // Bias high.
    let res = bisect(|i: u32| v[i as usize] != 0, 0u32, len);
    assert_eq!(res, len);
}

#[test]
fn fill_builds_a_set_all_message() {
    let m = host::fill(9, 8, 7);
    match &m {
        Message::Color(cd) => {
            assert_eq!(cd.offset, 0);
            assert_eq!(
                cd.settings,
                ColorData::SETTINGS_SET_ALL | ColorData::SETTINGS_SHOW_AFTER
            );
            assert_eq!(cd.color[0], RGB { r: 9, g: 8, b: 7 });
        }
        other => panic!("expected a Color message, got {:?}", other),
    }
}

#[test]
fn set_leds_chunks_and_marks_only_the_last() {
    let mut pixels = Vec::new();
    for i in 0..40u32 {
        pixels.push(RGB {
            r: i as u8,
            g: 0,
            b: 0,
        });
    }
    let msgs = host::set_leds(&pixels);
    assert_eq!(msgs.len(), 3); // ceil(40 / 19)
    for (i, m) in msgs.iter().enumerate() {
        match m {
            Message::Color(cd) => {
                assert_eq!(cd.offset as usize, i * 19);
                let expected_settings = if i == 2 {
                    ColorData::SETTINGS_SHOW_AFTER
                } else {
                    0
                };
                assert_eq!(cd.settings, expected_settings);
            }
            other => panic!("expected a Color message, got {:?}", other),
        }
    }
    // The last chunk covers pixels 38 and 39 and pads the rest black.
    match &msgs[2] {
        Message::Color(cd) => {
            assert_eq!(cd.color[0], RGB { r: 38, g: 0, b: 0 });
            assert_eq!(cd.color[1], RGB { r: 39, g: 0, b: 0 });
            assert_eq!(cd.color[2], RGB { r: 0, g: 0, b: 0 });
        }
        _ => unreachable!(),
    }
}

#[test]
fn set_leds_of_nothing_sends_nothing() {
    let msgs = host::set_leds(&[]);
    assert_eq!(msgs.len(), 0);
}

#[test]
fn set_config_wraps_the_configuration() {
    let cfg = displaylight::messages::Config::default();
    match host::set_config(&cfg) {
        Message::Config(c) => assert_eq!(c, cfg),
        other => panic!("expected a Config message, got {:?}", other),
    }
}
