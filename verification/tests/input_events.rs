use conge::context::AppEvent;
use conge::context::Context;
use conge::input::decode_button_mask;
use conge::input::decode_wheel_direction;
use conge::input::key_code_from_scan;
use conge::input::ButtonSet;
use conge::input::DeviceRecord;
use conge::input::Key;
use conge::input::KeyCode;
use conge::input::MouseButton;
use conge::input::ScrollDirection;

fn key_record(code: KeyCode, character: char, pressed: bool) -> DeviceRecord {
    DeviceRecord::Key { code, character, pressed }
}

fn mouse_record(x: i16, y: i16, buttons: ButtonSet) -> DeviceRecord {
    DeviceRecord::Mouse { x, y, buttons, wheel: None }
}

fn left_only() -> ButtonSet {
    ButtonSet { left: true, middle: false, right: false }
}

#[test]
fn scan_codes_map_to_keys() {
    assert_eq!(key_code_from_scan(1), Some(KeyCode::Esc));
    assert_eq!(key_code_from_scan(16), Some(KeyCode::Q));
    assert_eq!(key_code_from_scan(57), Some(KeyCode::Space));
    assert_eq!(key_code_from_scan(58), Some(KeyCode::CapsLock));
    // Codes the engine does not cover are dropped, not an error.
    assert_eq!(key_code_from_scan(59), None);
    assert_eq!(key_code_from_scan(1000), None);
}

#[test]
fn button_mask_decoding() {
    let s = decode_button_mask(0x1);
    assert!(s.left && !s.middle && !s.right);
    let s = decode_button_mask(0x2);
    assert!(!s.left && !s.middle && s.right);
    let s = decode_button_mask(0x4);
    assert!(!s.left && s.middle && !s.right);
    let s = decode_button_mask(0x7);
    assert!(s.left && s.middle && s.right);
    let s = decode_button_mask(0);
    assert!(!s.left && !s.middle && !s.right);
}

#[test]
fn wheel_direction_decoding() {
    assert_eq!(decode_wheel_direction(0x0078_0000), ScrollDirection::Up);
    assert_eq!(decode_wheel_direction(0xff88_0000), ScrollDirection::Down);
}

#[test]
fn key_edge_idempotence() {
    let mut ctx = Context::new();
    let down = key_record(KeyCode::A, 'a', true);
    let first = ctx.apply_record(down);
    assert_eq!(first, vec![AppEvent::KeyDown(Key::new(KeyCode::A, 'a'))]);
    assert!(ctx.is_key_down(&KeyCode::A));
    // A re-press while the key is held emits nothing.
    let second = ctx.apply_record(down);
    assert_eq!(second, vec![]);
    assert!(ctx.is_key_down(&KeyCode::A));
    // The release emits exactly one key-up.
    let third = ctx.apply_record(key_record(KeyCode::A, 'a', false));
    assert_eq!(third, vec![AppEvent::KeyUp(Key::new(KeyCode::A, 'a'))]);
    assert!(!ctx.is_key_down(&KeyCode::A));
}

#[test]
fn releasing_an_absent_key_still_reports_key_up() {
    let mut ctx = Context::new();
    let events = ctx.apply_record(key_record(KeyCode::Z, 'z', false));
    assert_eq!(events, vec![AppEvent::KeyUp(Key::new(KeyCode::Z, 'z'))]);
}

#[test]
fn click_scenario() {
    let mut ctx = Context::new();
    let pressed = ctx.apply_record(mouse_record(5, 6, left_only()));
    assert_eq!(pressed, vec![AppEvent::ButtonDown(MouseButton::Left)]);
    assert!(ctx.is_button_down(&MouseButton::Left));
    assert_eq!(ctx.mouse_pos(), (5, 6));
    // The release carries the position at the time of release, not of press.
    let released = ctx.apply_record(mouse_record(7, 8, ButtonSet::empty()));
    assert_eq!(released.len(), 2);
    assert_eq!(released[0], AppEvent::ButtonUp(MouseButton::Left));
    match released[1] {
        AppEvent::Click(click) => {
            assert_eq!(click.button(), MouseButton::Left);
            assert_eq!(click.pos(), (7, 8));
        }
        _ => panic!("expected a click event"),
    }
    assert!(!ctx.is_button_down(&MouseButton::Left));
}

#[test]
fn downs_come_before_up_click_pairs_in_one_record() {
    let mut ctx = Context::new();
    ctx.apply_record(mouse_record(0, 0, left_only()));
    // One record both presses the right button and releases the left one:
    // the down is delivered first, then the up and its click.
    let both = ctx.apply_record(
        mouse_record(1, 2, ButtonSet { left: false, middle: false, right: true }),
    );
    assert_eq!(both.len(), 3);
    assert_eq!(both[0], AppEvent::ButtonDown(MouseButton::Right));
    assert_eq!(both[1], AppEvent::ButtonUp(MouseButton::Left));
    assert!(matches!(both[2], AppEvent::Click(_)));
}

#[test]
fn wheel_record_only_scrolls() {
    let mut ctx = Context::new();
    ctx.apply_record(mouse_record(3, 4, left_only()));
    let events = ctx.apply_record(DeviceRecord::Mouse {
        x: 9,
        y: 9,
        buttons: ButtonSet::empty(),
        wheel: Some(ScrollDirection::Down),
    });
    assert_eq!(events, vec![AppEvent::Scroll(ScrollDirection::Down)]);
    // A wheel record touches neither the position nor the held buttons.
    assert_eq!(ctx.mouse_pos(), (3, 4));
    assert!(ctx.is_button_down(&MouseButton::Left));
}

#[test]
fn batch_preserves_record_order() {
    let mut ctx = Context::new();
    let records = vec![
        key_record(KeyCode::LeftShift, '\0', true),
        mouse_record(2, 2, left_only()),
        key_record(KeyCode::LeftShift, '\0', false),
        mouse_record(3, 3, ButtonSet::empty()),
    ];
    let events = ctx.handle_records(&records);
    assert_eq!(events.len(), 5);
    assert_eq!(events[0], AppEvent::KeyDown(Key::new(KeyCode::LeftShift, '\0')));
    assert_eq!(events[1], AppEvent::ButtonDown(MouseButton::Left));
    assert_eq!(events[2], AppEvent::KeyUp(Key::new(KeyCode::LeftShift, '\0')));
    assert_eq!(events[3], AppEvent::ButtonUp(MouseButton::Left));
    match events[4] {
        AppEvent::Click(click) => assert_eq!(click.pos(), (3, 3)),
        _ => panic!("expected a click event"),
    }
}

#[test]
fn modifier_queries_follow_held_keys() {
    let mut ctx = Context::new();
    assert!(!ctx.is_shift_down() && !ctx.is_ctrl_down() && !ctx.is_alt_down());
    ctx.hold_key(&KeyCode::LeftShift);
    ctx.hold_key(&KeyCode::LeftCtrl);
    ctx.hold_key(&KeyCode::LeftAlt);
    assert!(ctx.is_shift_down() && ctx.is_ctrl_down() && ctx.is_alt_down());
    ctx.release_key(&KeyCode::LeftCtrl);
    assert!(ctx.is_shift_down() && !ctx.is_ctrl_down() && ctx.is_alt_down());
}

#[test]
fn exit_request_and_title() {
    let mut ctx = Context::new();
    assert!(!ctx.should_exit());
    ctx.set_title(String::from("game"));
    assert_eq!(ctx.title().as_str(), "game");
    ctx.request_exit();
    assert!(ctx.should_exit());
}

#[test]
fn key_accessors() {
    let k = Key::new(KeyCode::Enter, '\r');
    assert_eq!(k.code(), KeyCode::Enter);
    assert_eq!(k.character(), '\r');
}
