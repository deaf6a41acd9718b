use machine_core::input::{
    MAX_BUTTON, MAX_RAW_KEYCODE, NativeInput, PROTOCOL_VERSION, QUEUE_CAPACITY, button, ev, reg,
};

fn read_u32(dev: &NativeInput, base: u32) -> u32 {
    u32::from_be_bytes([
        dev.read(base),
        dev.read(base + 1),
        dev.read(base + 2),
        dev.read(base + 3),
    ])
}

fn advance(dev: &mut NativeInput) {
    dev.write(reg::EVENT_ADVANCE + 3, 0);
}

fn ack(dev: &mut NativeInput) {
    dev.write(reg::INT_STATUS + 3, 1);
}

#[test]
fn a_later_motion_never_jumps_ahead_of_an_already_queued_button() {
    let mut dev = NativeInput::new();
    dev.push_pointer_motion(100, 100, 0);
    dev.push_button(button::LEFT, true, 0);
    dev.push_pointer_motion(200, 200, 0);

    assert_eq!(read_u32(&dev, reg::EVENT_TYPE), ev::POINTER_MOTION as u32);
    assert_eq!(read_u32(&dev, reg::EVENT_X), 100, "click position lost");
    assert_eq!(read_u32(&dev, reg::EVENT_Y), 100, "click position lost");
    advance(&mut dev);

    assert_eq!(read_u32(&dev, reg::EVENT_TYPE), ev::BUTTON_DOWN as u32);
    advance(&mut dev);

    assert_eq!(read_u32(&dev, reg::EVENT_TYPE), ev::POINTER_MOTION as u32);
    assert_eq!(read_u32(&dev, reg::EVENT_X), 200);
}

#[test]
fn capacity_register_matches_the_real_queue_depth() {
    let dev = NativeInput::new();
    assert_eq!(read_u32(&dev, reg::CAPACITY), QUEUE_CAPACITY as u32);
}

#[test]
fn input_version_register_reports_the_documented_protocol_version() {
    let dev = NativeInput::new();
    assert_eq!(read_u32(&dev, reg::VERSION), PROTOCOL_VERSION);
    assert_ne!(PROTOCOL_VERSION, 0);
}

#[test]
fn empty_queue_reads_none_type_and_zeroed_fields() {
    let dev = NativeInput::new();
    assert_eq!(dev.read(reg::EVENT_TYPE + 3), ev::NONE);
    assert_eq!(dev.read(reg::EVENT_CODE + 3), 0);
    assert_eq!(read_u32(&dev, reg::EVENT_QUALIFIER), 0);
    assert_eq!(read_u32(&dev, reg::EVENT_X), 0);
    assert_eq!(read_u32(&dev, reg::EVENT_Y), 0);
    assert_eq!(read_u32(&dev, reg::EVENT_COUNT), 0);
}

#[test]
fn key_down_then_up_round_trips_through_the_queue_in_order() {
    let mut dev = NativeInput::new();
    assert!(dev.push_key(0x41, true, 0x0008));
    assert!(dev.push_key(0x41, false, 0));

    assert_eq!(read_u32(&dev, reg::EVENT_COUNT), 2);
    assert_eq!(dev.read(reg::EVENT_TYPE + 3), ev::KEY_DOWN);
    assert_eq!(dev.read(reg::EVENT_CODE + 3), 0x41);
    assert_eq!(read_u32(&dev, reg::EVENT_QUALIFIER), 0x0008);
    advance(&mut dev);

    assert_eq!(dev.read(reg::EVENT_TYPE + 3), ev::KEY_UP);
    assert_eq!(dev.read(reg::EVENT_CODE + 3), 0x41);
    advance(&mut dev);

    assert_eq!(dev.read(reg::EVENT_TYPE + 3), ev::NONE);
    assert_eq!(read_u32(&dev, reg::EVENT_COUNT), 0);
}

#[test]
fn button_events_round_trip_the_same_way() {
    let mut dev = NativeInput::new();
    assert!(dev.push_button(button::LEFT, true, 0));
    assert_eq!(dev.read(reg::EVENT_TYPE + 3), ev::BUTTON_DOWN);
    assert_eq!(dev.read(reg::EVENT_CODE + 3), button::LEFT);
    advance(&mut dev);
    assert!(dev.push_button(button::LEFT, false, 0));
    assert_eq!(dev.read(reg::EVENT_TYPE + 3), ev::BUTTON_UP);
}

#[test]
fn pointer_motion_carries_absolute_signed_coordinates_intact() {
    let mut dev = NativeInput::new();
    assert!(dev.push_pointer_motion(-1, 32000, 0));
    assert_eq!(dev.read(reg::EVENT_TYPE + 3), ev::POINTER_MOTION);
    assert_eq!(
        dev.read(reg::EVENT_CODE + 3),
        0,
        "no button/key code for motion"
    );
    assert_eq!(read_u32(&dev, reg::EVENT_X), -1i32 as u32);
    assert_eq!(read_u32(&dev, reg::EVENT_Y), 32000);
}

#[test]
fn pointer_motion_coalesces_into_a_single_queue_slot() {
    let mut dev = NativeInput::new();
    assert!(dev.push_pointer_motion(1, 1, 0));
    assert!(dev.push_pointer_motion(2, 2, 0));
    assert!(dev.push_pointer_motion(3, 3, 0));
    assert_eq!(
        read_u32(&dev, reg::EVENT_COUNT),
        1,
        "repeated motion must not grow the queue"
    );
    assert_eq!(read_u32(&dev, reg::EVENT_X), 3);
    assert_eq!(read_u32(&dev, reg::EVENT_Y), 3);
}

#[test]
fn motion_separated_by_a_key_is_not_collapsed() {
    let mut dev = NativeInput::new();
    assert!(dev.push_key(0x01, true, 0));
    assert!(dev.push_pointer_motion(10, 10, 0));
    assert!(dev.push_key(0x02, true, 0));
    assert!(dev.push_pointer_motion(20, 20, 0));
    assert_eq!(read_u32(&dev, reg::EVENT_COUNT), 4);
    assert_eq!(dev.read(reg::EVENT_TYPE + 3), ev::KEY_DOWN);
    assert_eq!(dev.read(reg::EVENT_CODE + 3), 0x01);
}

#[test]
fn consecutive_motion_coalesces_into_one_entry() {
    let mut dev = NativeInput::new();
    assert!(dev.push_pointer_motion(10, 10, 0));
    assert!(dev.push_pointer_motion(20, 20, 0));
    assert!(dev.push_pointer_motion(30, 30, 0));
    assert_eq!(read_u32(&dev, reg::EVENT_COUNT), 1);
    assert_eq!(read_u32(&dev, reg::EVENT_X), 30);
}

#[test]
fn a_full_queue_of_keys_evicts_pending_motion_rather_than_dropping_the_key() {
    let mut dev = NativeInput::new();
    for i in 0..(QUEUE_CAPACITY as u8 - 1) {
        assert!(dev.push_key(i, true, 0));
    }
    assert!(dev.push_pointer_motion(5, 5, 0));
    assert_eq!(read_u32(&dev, reg::EVENT_COUNT), QUEUE_CAPACITY as u32);

    assert!(dev.push_key(MAX_RAW_KEYCODE, true, 0));
    assert_eq!(read_u32(&dev, reg::EVENT_OVERFLOW), 0);
    assert_eq!(read_u32(&dev, reg::EVENT_COUNT), QUEUE_CAPACITY as u32);
}

#[test]
fn a_queue_full_of_keys_with_no_motion_to_evict_drops_and_counts() {
    let mut dev = NativeInput::new();
    for i in 0..QUEUE_CAPACITY as u8 {
        assert!(dev.push_key(i, true, 0));
    }
    assert!(
        !dev.push_key(0, false, 0),
        "a genuinely full discrete queue must reject, not silently grow"
    );
    assert_eq!(read_u32(&dev, reg::EVENT_OVERFLOW), 1);
    dev.write(reg::INT_ENABLE + 3, 1);
    assert!(dev.irq_pending());
}

#[test]
fn dropped_pointer_motion_is_not_counted_as_overflow() {
    let mut dev = NativeInput::new();
    for i in 0..QUEUE_CAPACITY as u8 {
        assert!(dev.push_key(i, true, 0));
    }
    assert!(!dev.push_pointer_motion(1, 1, 0));
    assert_eq!(
        read_u32(&dev, reg::EVENT_OVERFLOW),
        0,
        "a dropped, self-superseding motion event must not inflate the overflow counter"
    );
}

#[test]
fn interrupt_requires_both_enable_and_a_latched_event() {
    let mut dev = NativeInput::new();
    assert!(dev.push_key(0x01, true, 0));
    assert!(!dev.irq_pending(), "masked while INT_ENABLE is 0");
    dev.write(reg::INT_ENABLE + 3, 1);
    assert!(dev.irq_pending());
}

#[test]
fn write_one_to_int_status_clears_it_once_the_queue_is_drained() {
    let mut dev = NativeInput::new();
    dev.write(reg::INT_ENABLE + 3, 1);
    assert!(dev.push_key(0x01, true, 0));
    assert!(dev.irq_pending());

    advance(&mut dev);
    ack(&mut dev);
    assert!(!dev.irq_pending());
}

#[test]
fn ack_while_events_remain_queued_is_ignored_not_stranded() {
    let mut dev = NativeInput::new();
    dev.write(reg::INT_ENABLE + 3, 1);
    assert!(dev.push_key(0x01, true, 0));
    assert!(dev.push_key(0x02, true, 0));

    ack(&mut dev);
    assert!(
        dev.irq_pending(),
        "acking with unread events queued must not strand them"
    );
    advance(&mut dev);
    ack(&mut dev);
    assert!(dev.irq_pending());
    advance(&mut dev);
    ack(&mut dev);
    assert!(!dev.irq_pending());
}

#[test]
fn int_enable_write_only_the_low_lane_of_its_slot_takes_effect() {
    let mut dev = NativeInput::new();
    dev.write(reg::INT_ENABLE, 1);
    dev.write(reg::INT_ENABLE + 1, 1);
    dev.write(reg::INT_ENABLE + 2, 1);
    assert_eq!(dev.read(reg::INT_ENABLE + 3), 0, "only lane 3 is live");
    dev.write(reg::INT_ENABLE + 3, 1);
    assert_eq!(dev.read(reg::INT_ENABLE + 3), 1);
}

#[test]
fn a_keycode_past_the_documented_range_is_rejected_cleanly() {
    let mut dev = NativeInput::new();
    assert!(!dev.push_key(MAX_RAW_KEYCODE + 1, true, 0));
    assert!(!dev.push_key(0xFF, true, 0));
    assert_eq!(read_u32(&dev, reg::EVENT_COUNT), 0);
}

#[test]
fn a_button_id_past_the_documented_range_is_rejected_cleanly() {
    let mut dev = NativeInput::new();
    assert!(!dev.push_button(MAX_BUTTON + 1, true, 0));
    assert_eq!(read_u32(&dev, reg::EVENT_COUNT), 0);
}

#[test]
fn out_of_range_pointer_coordinates_are_rejected_cleanly() {
    let mut dev = NativeInput::new();
    assert!(!dev.push_pointer_motion(i16::MAX as i32 + 1, 0, 0));
    assert!(!dev.push_pointer_motion(0, i16::MIN as i32 - 1, 0));
    assert!(!dev.push_pointer_motion(i32::MAX, i32::MIN, 0));
    assert_eq!(read_u32(&dev, reg::EVENT_COUNT), 0);
    assert!(dev.push_pointer_motion(i16::MIN as i32, i16::MAX as i32, 0));
}

#[test]
fn unimplemented_offsets_read_zero_and_discard_writes() {
    let mut dev = NativeInput::new();
    assert_eq!(dev.read(0x100), 0);
    dev.write(0x100, 0xFF);
    assert_eq!(dev.read(0x100), 0);
}
