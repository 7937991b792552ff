//! Output events, and how a record is turned into them.

use crate::mapping::{
    axis_x_position, axis_x_value, axis_y_position, axis_y_value, button_state, button_value,
    lemma_axis_positions_representable,
};
use crate::record::{parse_joystick_data, parsed_sample};
use vstd::prelude::*;

verus! {

/// A control of the virtual joystick that an event can address.
#[derive(Clone, Copy, Debug, PartialEq, Eq, Structural)]
pub enum Control {
    /// The horizontal absolute axis.
    AxisX,
    /// The vertical absolute axis.
    AxisY,
    /// The digital button.
    Button,
}

/// One event for the virtual device: a control and the value it takes.
#[derive(Clone, Copy, Debug, PartialEq, Eq, Structural)]
pub struct OutputEvent {
    pub control: Control,
    pub value: i32,
}

/// The events that one record gives rise to: a value for each axis and one
/// for the button.
#[derive(Clone, Copy, Debug, PartialEq, Eq, Structural)]
pub struct EventBatch {
    pub axis_x: i32,
    pub axis_y: i32,
    pub button: i32,
}

/// The batch for a sample: both axes rescaled, Y with reversed direction, and
/// the active-low switch turned into a button state.
pub open spec fn batch_of(sample: (u16, u16, u8)) -> EventBatch {
    EventBatch {
        axis_x: axis_x_position(sample.0) as i32,
        axis_y: axis_y_position(sample.1) as i32,
        button: button_state(sample.2) as i32,
    }
}

/// The batch that a record translates to; nothing for a malformed record.
pub open spec fn translated(text: Seq<char>) -> Option<EventBatch> {
    match parsed_sample(text) {
        Some(sample) => Some(batch_of(sample)),
        None => None,
    }
}

impl EventBatch {
    /// The events of the first emission: axis X, then axis Y.
    pub open spec fn axis_group(self) -> Seq<OutputEvent> {
        seq![
            OutputEvent { control: Control::AxisX, value: self.axis_x },
            OutputEvent { control: Control::AxisY, value: self.axis_y },
        ]
    }

    /// The event of the second emission: the button.
    pub open spec fn button_group(self) -> Seq<OutputEvent> {
        seq![OutputEvent { control: Control::Button, value: self.button }]
    }

    /// The events to hand to the device in the first emission.
    pub fn axis_events(&self) -> (events: Vec<OutputEvent>)
        ensures
            events@ == self.axis_group(),
    {
        let mut events: Vec<OutputEvent> = Vec::new();
        events.push(OutputEvent { control: Control::AxisX, value: self.axis_x });
        events.push(OutputEvent { control: Control::AxisY, value: self.axis_y });
        events
    }

    /// The events to hand to the device in the second emission.
    pub fn button_events(&self) -> (events: Vec<OutputEvent>)
        ensures
            events@ == self.button_group(),
    {
        let mut events: Vec<OutputEvent> = Vec::new();
        events.push(OutputEvent { control: Control::Button, value: self.button });
        events
    }

    /// The emissions of the batch in order: the axis events together, then
    /// the button event on its own.
    pub fn emissions(&self) -> (groups: Vec<Vec<OutputEvent>>)
        ensures
            groups@.len() == 2,
            groups@[0]@ == self.axis_group(),
            groups@[1]@ == self.button_group(),
    {
        let mut groups: Vec<Vec<OutputEvent>> = Vec::new();
        groups.push(self.axis_events());
        groups.push(self.button_events());
        groups
    }
}

/// Turns the three raw readings of a sample into its event batch.
pub fn translate_sample(vrx: u16, vry: u16, sw: u8) -> (batch: EventBatch)
    ensures
        batch == batch_of((vrx, vry, sw)),
        batch.axis_x == axis_x_position(vrx),
        batch.axis_y == axis_y_position(vry),
        batch.button == button_state(sw),
{
    proof {
        lemma_axis_positions_representable(vrx);
        lemma_axis_positions_representable(vry);
    }
    EventBatch { axis_x: axis_x_value(vrx), axis_y: axis_y_value(vry), button: button_value(sw) }
}

/// Translates one record into its event batch. A malformed record yields
/// nothing: there is no partial batch.
pub fn translate(record: &str) -> (batch: Option<EventBatch>)
    ensures
        batch == translated(record@),
{
    match parse_joystick_data(record) {
        Some((vrx, vry, sw)) => Some(translate_sample(vrx, vry, sw)),
        None => None,
    }
}

/// The values of a batch are exactly the mapped readings: nothing is lost in
/// narrowing them to the device's value type.
pub proof fn lemma_batch_values(sample: (u16, u16, u8))
    ensures
        batch_of(sample).axis_x == axis_x_position(sample.0),
        batch_of(sample).axis_y == axis_y_position(sample.1),
        batch_of(sample).button == button_state(sample.2),
{
    lemma_axis_positions_representable(sample.0);
    lemma_axis_positions_representable(sample.1);
}

} // verus!
