use joystick_bridge::mapping::{
    axis_x_value, axis_y_value, button_value, map_to_abs_range, AXIS_MAX, AXIS_MIN, RAW_MAX,
    RAW_MIN,
};

/// The formula in plain wide arithmetic, rounding toward zero.
fn reference_map(value: u16, in_min: u16, in_max: u16, out_min: i32, out_max: i32) -> i64 {
    (value as i64 - in_min as i64) * (out_max as i64 - out_min as i64)
        / (in_max as i64 - in_min as i64)
        + out_min as i64
}

#[test]
fn axis_x_maps_range_ends_onto_range_ends() {
    assert_eq!(map_to_abs_range(0, 0, 1023, -32768, 32767), -32768);
    assert_eq!(map_to_abs_range(1023, 0, 1023, -32768, 32767), 32767);
    assert_eq!(axis_x_value(RAW_MIN), AXIS_MIN);
    assert_eq!(axis_x_value(RAW_MAX), AXIS_MAX);
}

#[test]
fn axis_x_centre_truncates_toward_zero() {
    assert_eq!(map_to_abs_range(511, 0, 1023, -32768, 32767), -33);
    assert_eq!(map_to_abs_range(512, 0, 1023, -32768, 32767), 31);
    assert_eq!(axis_x_value(511), -33);
    assert_eq!(axis_x_value(512), 31);
}

#[test]
fn axis_y_is_inverted() {
    assert_eq!(map_to_abs_range(0, 0, 1023, 32767, -32768), 32767);
    assert_eq!(map_to_abs_range(1023, 0, 1023, 32767, -32768), -32768);
    assert_eq!(axis_y_value(RAW_MIN), AXIS_MAX);
    assert_eq!(axis_y_value(RAW_MAX), AXIS_MIN);
}

#[test]
fn axis_y_centre_truncates_toward_zero() {
    assert_eq!(map_to_abs_range(511, 0, 1023, 32767, -32768), 32);
    assert_eq!(map_to_abs_range(512, 0, 1023, 32767, -32768), -32);
    assert_eq!(axis_y_value(511), 32);
    assert_eq!(axis_y_value(512), -32);
}

#[test]
fn axis_values_follow_the_formula_for_every_reading() {
    for raw in 0..=u16::MAX {
        assert_eq!(axis_x_value(raw) as i64, reference_map(raw, 0, 1023, -32768, 32767));
        assert_eq!(axis_y_value(raw) as i64, reference_map(raw, 0, 1023, 32767, -32768));
    }
}

#[test]
fn axis_values_match_thirty_two_bit_arithmetic_inside_the_raw_range() {
    for raw in 0..=1023u16 {
        let x = (raw as i32 - 0) * (32767 - (-32768)) / (1023 - 0) + (-32768);
        let y = (raw as i32 - 0) * (-32768 - 32767) / (1023 - 0) + 32767;
        assert_eq!(axis_x_value(raw), x);
        assert_eq!(axis_y_value(raw), y);
    }
}

#[test]
fn axis_values_stay_in_the_declared_range() {
    for raw in RAW_MIN..=RAW_MAX {
        let x = axis_x_value(raw);
        let y = axis_y_value(raw);
        assert!(AXIS_MIN <= x && x <= AXIS_MAX);
        assert!(AXIS_MIN <= y && y <= AXIS_MAX);
    }
}

#[test]
fn axis_x_rises_and_axis_y_falls() {
    for raw in 0..u16::MAX {
        assert!(axis_x_value(raw) <= axis_x_value(raw + 1));
        assert!(axis_y_value(raw) >= axis_y_value(raw + 1));
    }
}

#[test]
fn axes_mirror_each_other() {
    for raw in 0..=u16::MAX {
        assert_eq!(axis_x_value(raw) + axis_y_value(raw), -1);
    }
}

#[test]
fn axis_reading_beyond_the_raw_range_is_extrapolated() {
    assert_eq!(axis_x_value(2000), 95355);
    assert_eq!(axis_x_value(65535), 4165507);
    assert_eq!(axis_y_value(65535), -4165508);
}

#[test]
fn map_handles_general_ranges() {
    assert_eq!(map_to_abs_range(5, 0, 10, 0, 100), 50);
    assert_eq!(map_to_abs_range(7, 0, 3, 0, 10), 23);
    assert_eq!(map_to_abs_range(1, 0, 3, 0, -10), -3);
    assert_eq!(map_to_abs_range(1, 0, 3, 10, 0), 7);
    assert_eq!(map_to_abs_range(15, 10, 20, -100, 100), 0);
}

#[test]
fn map_handles_a_reversed_input_range() {
    assert_eq!(map_to_abs_range(2, 10, 0, 0, 100), 80);
    assert_eq!(map_to_abs_range(3, 10, 0, 0, 7), 4);
    assert_eq!(map_to_abs_range(12, 10, 0, 0, 7), -1);
    assert_eq!(map_to_abs_range(5, 7, 6, 3, 3), 3);
}

#[test]
fn map_agrees_with_the_formula_on_a_sweep() {
    let points: [u16; 7] = [0, 1, 2, 500, 1023, 40000, 65535];
    let outs: [i32; 6] = [-32768, -1000, 0, 7, 1000, 32767];
    for &value in points.iter() {
        for &in_min in points.iter() {
            for &in_max in points.iter() {
                if in_min == in_max {
                    continue;
                }
                for &out_min in outs.iter() {
                    for &out_max in outs.iter() {
                        let expected = reference_map(value, in_min, in_max, out_min, out_max);
                        if expected < i32::MIN as i64 || expected > i32::MAX as i64 {
                            continue;
                        }
                        assert_eq!(
                            map_to_abs_range(value, in_min, in_max, out_min, out_max) as i64,
                            expected
                        );
                    }
                }
            }
        }
    }
}

#[test]
fn button_is_active_low() {
    assert_eq!(button_value(0), 1);
    assert_eq!(button_value(1), 0);
    for sw in 1..=u8::MAX {
        assert_eq!(button_value(sw), 0);
    }
}
