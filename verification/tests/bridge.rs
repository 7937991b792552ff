use joystick_bridge::bridge::{
    handle_serial_data, process_chunk, process_text, translate_all, CycleAction, ReadOutcome,
};
use joystick_bridge::events::{translate, translate_sample, Control, EventBatch, OutputEvent};
use joystick_bridge::reassembler::FrameReassembler;

#[test]
fn translates_a_centred_released_sample() {
    assert_eq!(
        translate("512,512,1"),
        Some(EventBatch { axis_x: 31, axis_y: -32, button: 0 })
    );
}

#[test]
fn translates_a_corner_pressed_sample() {
    assert_eq!(
        translate("0,1023,0"),
        Some(EventBatch { axis_x: -32768, axis_y: -32768, button: 1 })
    );
    assert_eq!(
        translate("1023,0,0"),
        Some(EventBatch { axis_x: 32767, axis_y: 32767, button: 1 })
    );
}

#[test]
fn switch_values_other_than_zero_release_the_button() {
    assert_eq!(translate("0,0,0").map(|b| b.button), Some(1));
    assert_eq!(translate("0,0,1").map(|b| b.button), Some(0));
    assert_eq!(translate("0,0,2").map(|b| b.button), Some(0));
    assert_eq!(translate("0,0,255").map(|b| b.button), Some(0));
}

#[test]
fn two_field_record_gives_no_batch() {
    assert_eq!(translate("12,34"), None);
}

#[test]
fn non_numeric_record_gives_no_batch() {
    assert_eq!(translate("12,ab,0"), None);
}

#[test]
fn a_record_with_one_bad_field_gives_no_partial_batch() {
    assert_eq!(translate("512,512,x"), None);
    assert_eq!(translate("512,x,1"), None);
    assert_eq!(translate("x,512,1"), None);
    assert_eq!(translate("512,512,256"), None);
}

#[test]
fn translate_sample_maps_each_reading() {
    assert_eq!(translate_sample(0, 0, 0), EventBatch { axis_x: -32768, axis_y: 32767, button: 1 });
    assert_eq!(translate_sample(511, 511, 7), EventBatch { axis_x: -33, axis_y: 32, button: 0 });
    assert_eq!(
        translate_sample(1023, 1023, 1),
        EventBatch { axis_x: 32767, axis_y: -32768, button: 0 }
    );
}

#[test]
fn a_batch_is_emitted_as_axes_then_button() {
    let batch = EventBatch { axis_x: 31, axis_y: -32, button: 1 };
    assert_eq!(
        batch.axis_events(),
        vec![
            OutputEvent { control: Control::AxisX, value: 31 },
            OutputEvent { control: Control::AxisY, value: -32 },
        ]
    );
    assert_eq!(
        batch.button_events(),
        vec![OutputEvent { control: Control::Button, value: 1 }]
    );
    assert_eq!(
        batch.emissions(),
        vec![
            vec![
                OutputEvent { control: Control::AxisX, value: 31 },
                OutputEvent { control: Control::AxisY, value: -32 },
            ],
            vec![OutputEvent { control: Control::Button, value: 1 }],
        ]
    );
}

#[test]
fn two_records_in_one_chunk_give_two_batches() {
    let mut reassembler = FrameReassembler::new();
    let batches = process_chunk(&mut reassembler, b"512,512,1\r\n0,1023,0\r\n");
    assert_eq!(
        batches,
        vec![
            EventBatch { axis_x: 31, axis_y: -32, button: 0 },
            EventBatch { axis_x: -32768, axis_y: -32768, button: 1 },
        ]
    );
    assert_eq!(reassembler.pending(), "");
}

#[test]
fn a_malformed_record_is_dropped_and_the_buffer_is_unaffected() {
    let mut reassembler = FrameReassembler::new();
    let batches = process_chunk(&mut reassembler, b"12,34\r\n7");
    assert_eq!(batches, Vec::<EventBatch>::new());
    assert_eq!(reassembler.pending(), "7");
    let batches = process_chunk(&mut reassembler, b",8,0\r\n");
    assert_eq!(batches, vec![translate_sample(7, 8, 0)]);
    assert_eq!(reassembler.pending(), "");
}

#[test]
fn malformed_records_between_good_ones_are_skipped() {
    let mut reassembler = FrameReassembler::new();
    let batches =
        process_text(&mut reassembler, "1,2,0\r\n12,ab,0\r\n\r\n3,4,1\r\n1,2\r\n5,6,0\r\n9");
    assert_eq!(
        batches,
        vec![translate_sample(1, 2, 0), translate_sample(3, 4, 1), translate_sample(5, 6, 0)]
    );
    assert_eq!(reassembler.pending(), "9");
}

#[test]
fn translate_all_keeps_the_order_of_the_records() {
    let records = vec![
        "0,0,0".to_string(),
        "bad".to_string(),
        "1023,1023,1".to_string(),
        "512,512,1".to_string(),
    ];
    assert_eq!(
        translate_all(&records),
        vec![
            translate_sample(0, 0, 0),
            translate_sample(1023, 1023, 1),
            translate_sample(512, 512, 1),
        ]
    );
    assert_eq!(translate_all(&Vec::new()), Vec::<EventBatch>::new());
}

#[test]
fn batches_do_not_depend_on_the_chunking() {
    let stream: &[u8] = b"512,512,1\r\n0,1023,0\r\n12,34\r\n1,2,3";
    let mut whole = FrameReassembler::new();
    let expected = process_chunk(&mut whole, stream);
    assert_eq!(expected.len(), 2);
    for size in 1..=stream.len() {
        let mut reassembler = FrameReassembler::new();
        let mut batches: Vec<EventBatch> = Vec::new();
        for chunk in stream.chunks(size) {
            batches.extend(process_chunk(&mut reassembler, chunk));
        }
        assert_eq!(batches, expected);
        assert_eq!(reassembler.pending(), whole.pending());
    }
}

#[test]
fn received_bytes_are_processed() {
    let mut reassembler = FrameReassembler::new();
    match handle_serial_data(&mut reassembler, ReadOutcome::Received(b"0,0,0\r\n1,")) {
        CycleAction::Emit(batches) => {
            assert_eq!(batches, vec![translate_sample(0, 0, 0)]);
        }
        _ => panic!("received bytes must be processed"),
    }
    assert_eq!(reassembler.pending(), "1,");
    match handle_serial_data(&mut reassembler, ReadOutcome::Received(b"")) {
        CycleAction::Emit(batches) => assert!(batches.is_empty()),
        _ => panic!("an empty read is still a read"),
    }
    assert_eq!(reassembler.pending(), "1,");
}

#[test]
fn a_timeout_is_idle_and_keeps_the_pending_text() {
    let mut reassembler = FrameReassembler::new();
    reassembler.push_text("512,5");
    assert!(matches!(
        handle_serial_data(&mut reassembler, ReadOutcome::TimedOut),
        CycleAction::Idle
    ));
    assert_eq!(reassembler.pending(), "512,5");
}

#[test]
fn a_read_failure_is_reported_and_keeps_the_pending_text() {
    let mut reassembler = FrameReassembler::new();
    reassembler.push_text("512,5");
    assert!(matches!(
        handle_serial_data(&mut reassembler, ReadOutcome::Failed),
        CycleAction::Report
    ));
    assert_eq!(reassembler.pending(), "512,5");
    match handle_serial_data(&mut reassembler, ReadOutcome::Received(b"12,1\r\n")) {
        CycleAction::Emit(batches) => assert_eq!(batches, vec![translate_sample(512, 512, 1)]),
        _ => panic!("received bytes must be processed"),
    }
}
