use re_winit::convert::ToValue;
use re_winit::events::{
    DeviceEvent, ElementState, Event, Force, KeyboardInput, ModifiersState, MouseButton,
    MouseScrollDelta, PhysicalPosition, PhysicalSize, StartCause, Theme, Touch, TouchPhase,
    WindowEvent,
};
use re_winit::heap::Heap;
use re_winit::keycode::VirtualKeyCode;
use re_winit::tag::TAG_STRING;
use re_winit::value::Value;

#[test]
fn resize_event_encodes_as_a_size_block() {
    let mut h = Heap::new();
    let v = WindowEvent::Resized(PhysicalSize { width: 800, height: 600 }).to_value(&mut h);
    assert_eq!(h.tag(v), 0);
    assert_eq!(h.size(v), 1);
    let sz = h.field(v, 0);
    assert_eq!(h.size(sz), 2);
    assert_eq!(h.field(sz, 0).int_val(), 800);
    assert_eq!(h.field(sz, 1).int_val(), 600);
}

#[test]
fn constant_window_events_encode_by_position() {
    let mut h = Heap::new();
    assert_eq!(WindowEvent::CloseRequested.to_value(&mut h).int_val(), 0);
    assert_eq!(WindowEvent::Destroyed.to_value(&mut h).int_val(), 1);
    assert_eq!(WindowEvent::HoveredFileCancelled.to_value(&mut h).int_val(), 2);
}

#[test]
fn block_window_events_encode_by_position() {
    let mut h = Heap::new();
    let moved = WindowEvent::Moved(PhysicalPosition { x: 5, y: -6 }).to_value(&mut h);
    assert_eq!(h.tag(moved), 1);
    let dropped = WindowEvent::DroppedFile(b"/tmp/x".to_vec()).to_value(&mut h);
    assert_eq!(h.tag(dropped), 2);
    let path = h.field(dropped, 0);
    assert_eq!(h.tag(path), TAG_STRING);
    assert_eq!(h.size(path), 6);
    let focused = WindowEvent::Focused(true).to_value(&mut h);
    assert_eq!(h.tag(focused), 5);
    assert_eq!(h.field(focused, 0).int_val(), 1);
    let theme = WindowEvent::ThemeChanged(Theme::Dark).to_value(&mut h);
    assert_eq!(h.tag(theme), 17);
    assert_eq!(h.field(theme, 0).int_val(), 1);
}

#[test]
fn keyboard_event_carries_the_full_input() {
    let mut h = Heap::new();
    let dev = h.alloc_abstract(1);
    let ev = WindowEvent::KeyboardInput {
        device_id: dev,
        input: KeyboardInput {
            scancode: 30,
            state: ElementState::Pressed,
            virtual_keycode: Some(VirtualKeyCode::A),
        },
        is_synthetic: false,
    };
    let v = ev.to_value(&mut h);
    assert_eq!(h.tag(v), 6);
    assert_eq!(h.size(v), 3);
    assert_eq!(h.field(v, 0), dev);
    let input = h.field(v, 1);
    assert_eq!(h.field(input, 0).int_val(), 30);
    assert_eq!(h.field(input, 1).int_val(), 0); // Pressed
    let some_key = h.field(input, 2);
    assert_eq!(h.field(some_key, 0).int_val(), 10); // A is the 11th code
    assert_eq!(h.field(v, 2).int_val(), 0); // not synthetic
}

#[test]
fn key_codes_encode_their_position() {
    let mut h = Heap::new();
    assert_eq!(VirtualKeyCode::Key1.to_value(&mut h).int_val(), 0);
    assert_eq!(VirtualKeyCode::A.to_value(&mut h).int_val(), 10);
    assert_eq!(VirtualKeyCode::Escape.to_value(&mut h).int_val(), 36);
    assert_eq!(VirtualKeyCode::Cut.to_value(&mut h).int_val(), 162);
}

#[test]
fn mouse_types_encode_constants_and_payloads() {
    let mut h = Heap::new();
    assert_eq!(MouseButton::Left.to_value(&mut h).int_val(), 0);
    assert_eq!(MouseButton::Middle.to_value(&mut h).int_val(), 2);
    let other = MouseButton::Other(7).to_value(&mut h);
    assert_eq!(h.tag(other), 0);
    assert_eq!(h.field(other, 0).int_val(), 7);

    let line = MouseScrollDelta::LineDelta(1, -2).to_value(&mut h);
    assert_eq!(h.tag(line), 0);
    assert_eq!(h.field(line, 1).int_val(), -2);
    let pixel = MouseScrollDelta::PixelDelta(PhysicalPosition { x: 3, y: 4 }).to_value(&mut h);
    assert_eq!(h.tag(pixel), 1);
}

#[test]
fn touch_carries_force_and_location() {
    let mut h = Heap::new();
    let dev = h.alloc_abstract(2);
    let t = Touch {
        device_id: dev,
        phase: TouchPhase::Moved,
        location: PhysicalPosition { x: 10, y: 20 },
        force: Some(Force::Normalized(500)),
        id: 1,
    };
    let v = t.to_value(&mut h);
    assert_eq!(h.size(v), 5);
    assert_eq!(h.field(v, 1).int_val(), 1); // Moved
    let some_force = h.field(v, 3);
    let force = h.field(some_force, 0);
    assert_eq!(h.tag(force), 1); // Normalized
    assert_eq!(h.field(force, 0).int_val(), 500);
}

#[test]
fn modifiers_are_four_booleans() {
    let mut h = Heap::new();
    let m = ModifiersState { shift: true, ctrl: false, alt: true, logo: false };
    let v = m.to_value(&mut h);
    assert_eq!(h.size(v), 4);
    assert_eq!(h.field(v, 0).int_val(), 1);
    assert_eq!(h.field(v, 1).int_val(), 0);
    assert_eq!(h.field(v, 2).int_val(), 1);
    assert_eq!(h.field(v, 3).int_val(), 0);
}

#[test]
fn start_cause_encodes_resume_times() {
    let mut h = Heap::new();
    assert_eq!(StartCause::Poll.to_value(&mut h).int_val(), 0);
    assert_eq!(StartCause::Init.to_value(&mut h).int_val(), 1);
    let r = StartCause::ResumeTimeReached { start: 100, requested_resume: 150 }.to_value(&mut h);
    assert_eq!(h.tag(r), 0);
    assert_eq!(h.field(r, 1).int_val(), 150);
    let w = StartCause::WaitCancelled { start: 100, requested_resume: None }.to_value(&mut h);
    assert_eq!(h.tag(w), 1);
    assert_eq!(h.field(w, 1).int_val(), 0);
}

#[test]
fn device_events_encode_with_narrowed_payloads() {
    let mut h = Heap::new();
    assert_eq!(DeviceEvent::Added.to_value(&mut h).int_val(), 0);
    assert_eq!(DeviceEvent::Removed.to_value(&mut h).int_val(), 1);
    let m = DeviceEvent::MouseMotion { delta: (4, -4) }.to_value(&mut h);
    assert_eq!(h.tag(m), 0);
    let pair = h.field(m, 0);
    assert_eq!(h.field(pair, 0).int_val(), 4);
    assert_eq!(h.field(pair, 1).int_val(), -4);
    let t = DeviceEvent::Text { codepoint: b"e".to_vec() }.to_value(&mut h);
    assert_eq!(h.tag(t), 5);
}

#[test]
fn top_level_events_encode_by_position() {
    let mut h = Heap::new();
    assert_eq!(Event::Suspended.to_value(&mut h).int_val(), 0);
    assert_eq!(Event::Resumed.to_value(&mut h).int_val(), 1);
    assert_eq!(Event::MainEventsCleared.to_value(&mut h).int_val(), 2);
    assert_eq!(Event::RedrawEventsCleared.to_value(&mut h).int_val(), 3);
    assert_eq!(Event::LoopDestroyed.to_value(&mut h).int_val(), 4);

    let ne = Event::NewEvents(StartCause::Poll).to_value(&mut h);
    assert_eq!(h.tag(ne), 0);
    let win = h.alloc_abstract(3);
    let we = Event::WindowEvent { window_id: win, event: WindowEvent::CloseRequested }
        .to_value(&mut h);
    assert_eq!(h.tag(we), 1);
    assert_eq!(h.field(we, 0), win);
    assert_eq!(h.field(we, 1).int_val(), 0);
    let ue = Event::UserEvent(Value::of_int(9)).to_value(&mut h);
    assert_eq!(h.tag(ue), 3);
    let rr = Event::RedrawRequested(win).to_value(&mut h);
    assert_eq!(h.tag(rr), 4);
}
