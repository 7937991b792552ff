//! Parsing of one record into the three raw readings of a joystick sample.

use crate::text::{
    chars_of, fields, parse_unsigned_range, parsed_unsigned, split_fields, trim_range, trimmed,
};
use vstd::prelude::*;

verus! {

/// Largest value the two axis fields may carry.
pub const AXIS_FIELD_MAX: u32 = 65535;

/// Largest value the switch field may carry.
pub const SWITCH_FIELD_MAX: u32 = 255;

/// The number that one field of a record denotes once the whitespace around
/// it is removed, if it denotes one that does not exceed `max`.
pub open spec fn field_value(field: Seq<char>, max: nat) -> Option<nat> {
    parsed_unsigned(trimmed(field), max)
}

/// The sample that a record denotes: exactly three fields, axis X, axis Y and
/// switch, each an unsigned number within its width. Any other record denotes
/// nothing.
pub open spec fn parsed_sample(text: Seq<char>) -> Option<(u16, u16, u8)> {
    let parts = fields(text);
    if parts.len() == 3 {
        match (
            field_value(parts[0], AXIS_FIELD_MAX as nat),
            field_value(parts[1], AXIS_FIELD_MAX as nat),
            field_value(parts[2], SWITCH_FIELD_MAX as nat),
        ) {
            (Some(vrx), Some(vry), Some(sw)) => Some((vrx as u16, vry as u16, sw as u8)),
            _ => None,
        }
    } else {
        None
    }
}

/// Reads the field `start..end` of `chars`: trims it and parses it as an
/// unsigned number that must not exceed `max`.
pub fn parse_field(chars: &Vec<char>, start: usize, end: usize, max: u32) -> (number: Option<
    u32,
>)
    requires
        start <= end <= chars@.len(),
    ensures
        match field_value(chars@.subrange(start as int, end as int), max as nat) {
            Some(n) => number == Some(n as u32),
            None => number is None,
        },
{
    let (from, to) = trim_range(chars, start, end);
    parse_unsigned_range(chars, from, to, max)
}

/// Parses a record of the form `<VRX>,<VRY>,<SW>` into its three raw
/// readings. A record with another number of fields, or with a field that is
/// not an unsigned number of its width, yields nothing.
pub fn parse_joystick_data(data: &str) -> (sample: Option<(u16, u16, u8)>)
    ensures
        sample == parsed_sample(data@),
{
    let chars = chars_of(data);
    let ranges = split_fields(&chars);
    if ranges.len() != 3 {
        return None;
    }
    let (x_start, x_end) = ranges[0];
    let (y_start, y_end) = ranges[1];
    let (s_start, s_end) = ranges[2];
    let vrx: u32 = match parse_field(&chars, x_start, x_end, AXIS_FIELD_MAX) {
        Some(n) => n,
        None => {
            return None;
        },
    };
    let vry: u32 = match parse_field(&chars, y_start, y_end, AXIS_FIELD_MAX) {
        Some(n) => n,
        None => {
            return None;
        },
    };
    let sw: u32 = match parse_field(&chars, s_start, s_end, SWITCH_FIELD_MAX) {
        Some(n) => n,
        None => {
            return None;
        },
    };
    Some((vrx as u16, vry as u16, sw as u8))
}

} // verus!
