use joystick_bridge::events::Control;
use joystick_bridge::mapping::{axis_x_value, axis_y_value};
use joystick_bridge::setup::{
    capability_of, device_controls, device_name, serial_port_path, AxisSetup, Capability,
    BAUD_RATE, READ_CHUNK_SIZE, READ_TIMEOUT_MS,
};

#[test]
fn transport_settings_are_the_fixed_ones() {
    assert_eq!(serial_port_path(), "/dev/ttyUSB0");
    assert_eq!(BAUD_RATE, 9600);
    assert_eq!(READ_TIMEOUT_MS, 100);
    assert_eq!(READ_CHUNK_SIZE, 32);
}

#[test]
fn device_is_named() {
    assert_eq!(device_name(), "Virtual Joystick");
}

#[test]
fn controls_are_two_axes_and_a_button() {
    assert_eq!(device_controls(), vec![Control::AxisX, Control::AxisY, Control::Button]);
}

#[test]
fn axes_span_the_full_range_with_zero_calibration() {
    let full = AxisSetup {
        value: 0,
        minimum: -32768,
        maximum: 32767,
        fuzz: 0,
        flat: 0,
        resolution: 0,
    };
    assert_eq!(capability_of(Control::AxisX), Capability::AbsoluteAxis(full));
    assert_eq!(capability_of(Control::AxisY), Capability::AbsoluteAxis(full));
}

#[test]
fn button_is_a_key() {
    assert_eq!(capability_of(Control::Button), Capability::Key);
}

#[test]
fn translated_axis_values_fit_the_declared_axes() {
    for control in [Control::AxisX, Control::AxisY] {
        let setup = match capability_of(control) {
            Capability::AbsoluteAxis(setup) => setup,
            Capability::Key => panic!("an axis must be declared as an axis"),
        };
        for raw in 0..=1023u16 {
            let value = if control == Control::AxisX {
                axis_x_value(raw)
            } else {
                axis_y_value(raw)
            };
            assert!(setup.minimum <= value && value <= setup.maximum);
        }
    }
}
