//! What is fixed once at startup: how the transport is opened and which
//! capabilities the virtual device declares.

use crate::events::Control;
use crate::mapping::{
    axis_x_position, axis_y_position, lemma_axis_positions_in_declared_range, AXIS_MAX, AXIS_MIN,
    RAW_MAX, RAW_MIN,
};
use vstd::prelude::*;

verus! {

/// Baud rate of the serial link.
pub const BAUD_RATE: u32 = 9600;

/// How long one read waits for data, in milliseconds.
pub const READ_TIMEOUT_MS: u64 = 100;

/// Size of the buffer that one read fills at most, in bytes.
pub const READ_CHUNK_SIZE: usize = 32;

/// The declaration of one absolute axis: its initial value, its range and
/// its calibration fields.
#[derive(Clone, Copy, Debug, PartialEq, Eq, Structural)]
pub struct AxisSetup {
    pub value: i32,
    pub minimum: i32,
    pub maximum: i32,
    pub fuzz: i32,
    pub flat: i32,
    pub resolution: i32,
}

/// What the virtual device declares for one of its controls.
#[derive(Clone, Copy, Debug, PartialEq, Eq, Structural)]
pub enum Capability {
    /// An absolute axis with the given declaration.
    AbsoluteAxis(AxisSetup),
    /// A digital key.
    Key,
}

/// The declaration of an axis over the full device range, with its initial
/// value and every calibration field zero.
pub open spec fn full_range_axis() -> AxisSetup {
    AxisSetup { value: 0, minimum: AXIS_MIN, maximum: AXIS_MAX, fuzz: 0, flat: 0, resolution: 0 }
}

/// The capability that the virtual joystick declares for a control: an
/// absolute axis over the full device range for each axis, a key for the
/// button.
pub open spec fn declared_capability(control: Control) -> Capability {
    match control {
        Control::AxisX => Capability::AbsoluteAxis(full_range_axis()),
        Control::AxisY => Capability::AbsoluteAxis(full_range_axis()),
        Control::Button => Capability::Key,
    }
}

/// The controls of the virtual joystick, in the order of the events of a
/// batch.
pub open spec fn joystick_controls() -> Seq<Control> {
    seq![Control::AxisX, Control::AxisY, Control::Button]
}

/// Path of the serial device the microcontroller is attached to.
pub fn serial_port_path() -> (path: &'static str)
    ensures
        path@ == "/dev/ttyUSB0"@,
{
    "/dev/ttyUSB0"
}

/// Name under which the virtual device registers.
pub fn device_name() -> (name: &'static str)
    ensures
        name@ == "Virtual Joystick"@,
{
    "Virtual Joystick"
}

/// The capability to declare for a control of the virtual joystick.
pub fn capability_of(control: Control) -> (capability: Capability)
    ensures
        capability == declared_capability(control),
{
    match control {
        Control::AxisX | Control::AxisY => Capability::AbsoluteAxis(
            AxisSetup {
                value: 0,
                minimum: AXIS_MIN,
                maximum: AXIS_MAX,
                fuzz: 0,
                flat: 0,
                resolution: 0,
            },
        ),
        Control::Button => Capability::Key,
    }
}

/// The controls that the virtual joystick declares at startup.
pub fn device_controls() -> (controls: Vec<Control>)
    ensures
        controls@ == joystick_controls(),
{
    let mut controls: Vec<Control> = Vec::new();
    controls.push(Control::AxisX);
    controls.push(Control::AxisY);
    controls.push(Control::Button);
    controls
}

/// Every axis value that a reading inside the converter's range translates
/// to lies within the range that the device declares for that axis.
pub proof fn lemma_axis_values_within_declaration(raw: u16)
    requires
        RAW_MIN <= raw <= RAW_MAX,
    ensures
        declared_capability(Control::AxisX) matches Capability::AbsoluteAxis(x) && x.minimum
            <= axis_x_position(raw) <= x.maximum,
        declared_capability(Control::AxisY) matches Capability::AbsoluteAxis(y) && y.minimum
            <= axis_y_position(raw) <= y.maximum,
{
    lemma_axis_positions_in_declared_range(raw);
}

} // verus!
