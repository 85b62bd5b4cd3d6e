use minivector::events::{Event, EventKind};
use minivector::manager::EventManager;

#[test]
fn dispatch_queues_in_fifo_order() {
    let mut m = EventManager::new();
    m.dispatch(Event::frame_finished());
    m.dispatch(Event::mouse_moved(1, 2));
    m.dispatch(Event::new(EventKind::InstructionBufferEmpty, 0));
    let q = m.queue();
    assert_eq!(q.len(), 3);
    assert_eq!(q[0].kind, EventKind::FrameFinished);
    assert_eq!(q[1].kind, EventKind::MouseMoved);
    assert_eq!(q[2].kind, EventKind::InstructionBufferEmpty);
}

#[test]
fn clear_empties_the_queue() {
    let mut m = EventManager::new();
    m.dispatch(Event::frame_finished());
    m.clear();
    assert_eq!(m.queue().len(), 0);
}

#[test]
fn at_most_one_handler_per_kind_last_registration_wins() {
    let mut m = EventManager::new();
    m.register(EventKind::KeyPressed, 1);
    m.register(EventKind::MouseMoved, 2);
    m.register(EventKind::KeyPressed, 3);
    assert_eq!(m.handler_for(EventKind::KeyPressed), Some(3));
    assert_eq!(m.handler_for(EventKind::MouseMoved), Some(2));
    assert_eq!(m.handler_for(EventKind::FrameFinished), None);
}

#[test]
fn dispatch_has_no_immediate_side_effect_on_handlers() {
    let mut m = EventManager::new();
    m.register(EventKind::FrameFinished, 9);
    m.dispatch(Event::frame_finished());
    assert_eq!(m.handler_for(EventKind::FrameFinished), Some(9));
    assert_eq!(m.queue().len(), 1);
}
