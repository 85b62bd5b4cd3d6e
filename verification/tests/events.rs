use minivector::events::{Event, EventError, EventKind, KeyCode, MouseButton};

fn all_kinds() -> Vec<EventKind> {
    vec![
        EventKind::FrameFinished,
        EventKind::KeyPressed,
        EventKind::KeyReleased,
        EventKind::MouseMoved,
        EventKind::MousePressed,
        EventKind::MouseReleased,
        EventKind::InstructionBufferEmpty,
    ]
}

#[test]
fn to_bytes_from_bytes_round_trip_every_kind_and_boundary_payloads() {
    for kind in all_kinds() {
        for data in [0u64, 1, 0xDEAD_BEEF, u64::MAX] {
            let e = Event::new(kind, data);
            let back = Event::from_bytes(e.to_bytes()).unwrap();
            assert_eq!(back, e);
        }
    }
}

#[test]
fn event_wire_format_is_big_endian() {
    let e = Event::new(EventKind::MouseMoved, 0x0102_0304_0506_0708);
    assert_eq!(e.to_bytes(), [3, 1, 2, 3, 4, 5, 6, 7, 8]);
}

#[test]
fn from_bytes_unknown_kind_fails() {
    let r = Event::from_bytes([7, 0, 0, 0, 0, 0, 0, 0, 0]);
    assert_eq!(r, Err(EventError::UnknownKind(7)));
}

#[test]
fn mouse_moved_packs_high_and_low_words() {
    let e = Event::mouse_moved(3, 4);
    assert_eq!(e.kind, EventKind::MouseMoved);
    assert_eq!(e.data, (3u64 << 32) | 4);
    assert_eq!(e.mouse_position().unwrap(), (3, 4));
}

#[test]
fn mouse_position_on_other_kind_fails() {
    let e = Event::frame_finished();
    assert_eq!(e.mouse_position(), Err(EventError::NotMouseMoved));
}

#[test]
fn key_events_carry_their_code() {
    let e = Event::key_pressed(KeyCode(87));
    assert_eq!(e.kind, EventKind::KeyPressed);
    assert_eq!(e.key_code().unwrap(), KeyCode(87));
    let e = Event::key_released(KeyCode(42));
    assert_eq!(e.kind, EventKind::KeyReleased);
    assert_eq!(e.key_code().unwrap(), KeyCode(42));
}

#[test]
fn key_code_on_other_kind_fails() {
    let e = Event::mouse_pressed(MouseButton(0));
    assert_eq!(e.key_code(), Err(EventError::NotKeyEvent));
}

#[test]
fn mouse_button_events_carry_their_button() {
    let e = Event::mouse_pressed(MouseButton(1));
    assert_eq!(e.kind, EventKind::MousePressed);
    assert_eq!(e.data, 1);
    let e = Event::mouse_released(MouseButton(2));
    assert_eq!(e.kind, EventKind::MouseReleased);
    assert_eq!(e.data, 2);
}

#[test]
fn frame_finished_has_no_payload() {
    let e = Event::frame_finished();
    assert_eq!(e.kind, EventKind::FrameFinished);
    assert_eq!(e.data, 0);
}
