use deskbridge::frame::{encode_frame, InputEvent, Pointer};
use deskbridge::keys::Key;
use deskbridge::kvm::{
    anchor_pointer, begin_session, center_point, check_accessibility, client_status,
    configure_kvm, connect_failed, deactivate_kvm_host, get_screen_size, get_target_ip,
    grab_callback, host_status, idle_status, kvm_address, platform_capture_cursor, release_point,
    release_manual_control, set_kvm_hotkey, set_target_ip, trigger_manual_control, GrabAction,
    GrabOutcome, HalfPixels, Hotkey, KvmState,
};
use deskbridge::session::{
    client_move, host_read, ChannelEvent, ClientPointer, ReaderAction, SessionWriter, WriterAction,
};

fn enabled(target: &str) -> KvmState {
    let mut state = KvmState::new();
    let r = configure_kvm(&mut state, true, true, target.to_string(), 1920, 1080, 1919, 1);
    assert_eq!(r, Ok("success".to_string()));
    state
}

fn at(left: bool, right: bool) -> InputEvent {
    InputEvent::MouseMove(Pointer {
        x: 5,
        y: 6,
        dx: 1.0f32.to_bits(),
        dy: 0,
        still: false,
        at_left: left,
        at_right: right,
    })
}

fn passed(action: GrabAction) -> GrabOutcome {
    GrabOutcome { pass: true, action }
}

fn swallowed(action: GrabAction) -> GrabOutcome {
    GrabOutcome { pass: false, action }
}

#[test]
fn first_state() {
    let state = KvmState::new();
    assert!(!state.enabled && !state.active && !state.is_connecting);
    assert_eq!(
        state.hotkey,
        Hotkey { ctrl: true, alt: true, shift: false, key_code: 11 }
    );
    assert_eq!(get_target_ip(&state), "");
    assert_eq!(get_screen_size(&state, None), (1920, 1080));
    assert_eq!(get_screen_size(&state, Some((2560, 1440))), (2560, 1440));
    assert!(check_accessibility());
}

#[test]
fn nothing_happens_while_off() {
    let mut state = KvmState::new();
    set_target_ip(&mut state, "10.0.0.2".to_string());
    for event in [InputEvent::KeyPress(Key::ControlLeft), at(true, true)] {
        assert_eq!(grab_callback(&mut state, &event), passed(GrabAction::Nothing));
    }
    assert!(!state.ctrl_pressed);
    assert!(!state.is_connecting);
}

#[test]
fn hotkey_connects_once() {
    let mut state = enabled("10.0.0.2");
    grab_callback(&mut state, &InputEvent::KeyPress(Key::ControlLeft));
    grab_callback(&mut state, &InputEvent::KeyPress(Key::Alt));
    let press = InputEvent::KeyPress(Key::KeyK);
    assert_eq!(
        grab_callback(&mut state, &press),
        swallowed(GrabAction::ConnectByHotkey("10.0.0.2".to_string()))
    );
    assert!(state.is_connecting);
    assert_eq!(grab_callback(&mut state, &press), swallowed(GrabAction::Nothing));
    connect_failed(&mut state);
    assert!(!state.is_connecting);
}

#[test]
fn hotkey_wants_exactly_its_modifiers() {
    let mut state = enabled("10.0.0.2");
    let press = InputEvent::KeyPress(Key::KeyK);
    assert_eq!(grab_callback(&mut state, &press), passed(GrabAction::Nothing));
    for key in [Key::ControlRight, Key::AltGr, Key::ShiftLeft] {
        grab_callback(&mut state, &InputEvent::KeyPress(key));
    }
    assert_eq!(grab_callback(&mut state, &press), passed(GrabAction::Nothing));
    grab_callback(&mut state, &InputEvent::KeyRelease(Key::ShiftRight));
    assert!(!grab_callback(&mut state, &press).pass);
}

#[test]
fn hotkey_releases_a_session() {
    let mut state = enabled("10.0.0.2");
    begin_session(&mut state);
    assert_eq!(set_kvm_hotkey(&mut state, false, false, true, 61), Ok(()));
    grab_callback(&mut state, &InputEvent::KeyPress(Key::ShiftLeft));
    assert_eq!(
        grab_callback(&mut state, &InputEvent::KeyPress(Key::F1)),
        swallowed(GrabAction::ReleaseByHotkey)
    );
    assert!(!state.active);
}

#[test]
fn hotkey_without_a_target_is_swallowed() {
    let mut state = enabled("");
    set_kvm_hotkey(&mut state, false, false, false, 61).unwrap();
    assert_eq!(
        grab_callback(&mut state, &InputEvent::KeyPress(Key::F1)),
        swallowed(GrabAction::Nothing)
    );
    assert!(!state.is_connecting);
}

#[test]
fn failsafe_ends_a_session() {
    let mut state = enabled("10.0.0.2");
    begin_session(&mut state);
    grab_callback(&mut state, &InputEvent::KeyPress(Key::ControlLeft));
    grab_callback(&mut state, &InputEvent::KeyPress(Key::Alt));
    assert_eq!(
        grab_callback(&mut state, &InputEvent::KeyPress(Key::Escape)),
        swallowed(GrabAction::ReleaseByFailsafe)
    );
    assert!(!state.active);
    // Outside a session it is an ordinary key.
    assert_eq!(
        grab_callback(&mut state, &InputEvent::KeyPress(Key::Escape)),
        passed(GrabAction::Nothing)
    );
}

#[test]
fn the_border_connects() {
    let mut state = enabled("10.0.0.2");
    assert_eq!(grab_callback(&mut state, &at(true, false)), passed(GrabAction::Nothing));
    assert_eq!(
        grab_callback(&mut state, &at(false, true)),
        passed(GrabAction::ConnectByBorder("10.0.0.2".to_string()))
    );
    assert_eq!(grab_callback(&mut state, &at(false, true)), passed(GrabAction::Nothing));

    let mut left = enabled("10.0.0.2");
    left.border_direction = 0;
    assert_eq!(grab_callback(&mut left, &at(false, true)), passed(GrabAction::Nothing));
    assert_eq!(
        grab_callback(&mut left, &at(true, false)),
        passed(GrabAction::ConnectByBorder("10.0.0.2".to_string()))
    );

    let mut nowhere = enabled("");
    assert_eq!(grab_callback(&mut nowhere, &at(false, true)), passed(GrabAction::Nothing));
    assert!(!nowhere.is_connecting);
}

#[test]
fn a_session_sends_every_event() {
    let mut state = enabled("10.0.0.2");
    begin_session(&mut state);
    assert!(state.active && !state.is_connecting);
    for event in [
        InputEvent::KeyPress(Key::KeyA),
        InputEvent::KeyRelease(Key::ControlLeft),
        InputEvent::Wheel { delta_x: 0, delta_y: -1 },
        at(false, true),
    ] {
        assert_eq!(
            grab_callback(&mut state, &event),
            swallowed(GrabAction::Send(encode_frame(&event)))
        );
    }
    assert_eq!((state.last_x, state.last_y), (5, 6));
}

#[test]
fn a_still_pointer_is_not_sent() {
    let mut state = enabled("10.0.0.2");
    begin_session(&mut state);
    let event = InputEvent::MouseMove(Pointer {
        x: 7,
        y: 8,
        dx: 0,
        dy: 0,
        still: true,
        at_left: false,
        at_right: false,
    });
    assert_eq!(grab_callback(&mut state, &event), swallowed(GrabAction::Nothing));
    assert_eq!((state.last_x, state.last_y), (7, 8));
}

#[test]
fn configuration() {
    let mut state = KvmState::new();
    assert_eq!(
        configure_kvm(&mut state, false, true, "a".to_string(), 800, 600, 799, 0),
        Err("accessibility_not_granted".to_string())
    );
    assert_eq!(state.screen_width, 1920);
    assert_eq!(
        configure_kvm(&mut state, false, false, "a".to_string(), 800, 600, 799, 0),
        Ok("success".to_string())
    );
    assert_eq!(get_target_ip(&state), "a");
    assert_eq!(get_screen_size(&state, None), (800, 600));
    assert_eq!((state.border_x, state.border_direction), (799, 0));
}

#[test]
fn control_by_hand() {
    let mut state = KvmState::new();
    assert_eq!(
        trigger_manual_control(&mut state, false).unwrap_err(),
        "accessibility_not_granted"
    );
    assert_eq!(trigger_manual_control(&mut state, true).unwrap_err(), "no_target_ip_configured");
    assert!(!state.is_connecting);
    set_target_ip(&mut state, "10.0.0.3".to_string());
    let session = trigger_manual_control(&mut state, true).unwrap();
    assert_eq!(session.target, "10.0.0.3");
    assert_eq!(session.reply, "session_initiated");
    assert!(state.is_connecting);
    begin_session(&mut state);
    assert_eq!(
        release_manual_control(&mut state),
        (true, Ok("control_released".to_string()))
    );
    assert_eq!(
        release_manual_control(&mut state),
        (false, Ok("control_released".to_string()))
    );
}

#[test]
fn one_attempt_at_a_time() {
    let mut state = enabled("10.0.0.3");
    assert!(trigger_manual_control(&mut state, true).is_ok());
    // While it is under way, neither the user nor the border nor the hotkey begins another.
    assert_eq!(trigger_manual_control(&mut state, true).unwrap_err(), "already_connecting");
    assert_eq!(grab_callback(&mut state, &at(false, true)), passed(GrabAction::Nothing));
    grab_callback(&mut state, &InputEvent::KeyPress(Key::ControlLeft));
    grab_callback(&mut state, &InputEvent::KeyPress(Key::Alt));
    assert_eq!(
        grab_callback(&mut state, &InputEvent::KeyPress(Key::KeyK)),
        swallowed(GrabAction::Nothing)
    );
    assert!(state.is_connecting);
    connect_failed(&mut state);
    assert!(trigger_manual_control(&mut state, true).is_ok());
}

#[test]
fn to_end_control_twice_is_to_end_it_once() {
    let mut state = enabled("a");
    begin_session(&mut state);
    assert!(deactivate_kvm_host(&mut state));
    assert!(!deactivate_kvm_host(&mut state));
}

#[test]
fn places_on_the_screen() {
    let rect = platform_capture_cursor(1921, 1080);
    assert_eq!((rect.left, rect.top, rect.right, rect.bottom), (960, 540, 961, 541));
    assert_eq!(center_point(1921, 1080), HalfPixels { x: 1921, y: 1080 });
    assert_eq!(release_point(1, 1920, 1081), HalfPixels { x: 3800, y: 1081 });
    assert_eq!(release_point(0, 1920, 1080), HalfPixels { x: 40, y: 1080 });
    let mut state = KvmState::new();
    anchor_pointer(&mut state, 1921, 1080);
    assert_eq!((state.last_x, state.last_y), (960, 540));
    anchor_pointer(&mut state, u64::MAX, 0);
    assert_eq!((state.last_x, state.last_y), (i32::MAX, 0));
}

#[test]
fn news_of_sessions() {
    assert_eq!(kvm_address("10.0.0.2"), "10.0.0.2:53201");
    let host = host_status("10.0.0.2");
    assert_eq!((host.active, host.role.as_str(), host.target.as_str()), (true, "host", "10.0.0.2"));
    let client = client_status("10.0.0.1");
    assert_eq!(
        (client.active, client.role.as_str(), client.target.as_str()),
        (true, "client", "10.0.0.1")
    );
    let idle = idle_status();
    assert_eq!((idle.active, idle.role.as_str(), idle.target.as_str()), (false, "idle", ""));
}

#[test]
fn signs_of_life() {
    let mut writer = SessionWriter::new();
    for wait in 1..31u32 {
        let action = writer.step(ChannelEvent::Timeout);
        if wait % 10 == 0 {
            assert_eq!(action, WriterAction::Write(vec![7, 0, 0, 0, 0, 0, 0, 0, 0]));
        } else {
            assert_eq!(action, WriterAction::Wait);
        }
    }
    for _ in 0..9 {
        assert_eq!(writer.step(ChannelEvent::Timeout), WriterAction::Wait);
    }
    // A frame starts the count anew.
    assert_eq!(writer.step(ChannelEvent::Data(vec![1, 2])), WriterAction::Write(vec![1, 2]));
    assert_eq!(writer.step(ChannelEvent::Timeout), WriterAction::Wait);
    assert_eq!(writer.step(ChannelEvent::Disconnected), WriterAction::Stop);
}

#[test]
fn the_controlling_side_reads() {
    let mut state = enabled("a");
    begin_session(&mut state);
    assert_eq!(host_read(&mut state, Some(&[7, 0, 0, 0, 0, 0, 0, 0, 0])), ReaderAction::Continue);
    assert!(state.active);
    assert_eq!(
        host_read(&mut state, Some(&[6, 0, 0, 0, 0, 0, 0, 0, 0])),
        ReaderAction::Stop { released: true }
    );
    assert!(!state.active);
    assert_eq!(host_read(&mut state, None), ReaderAction::Stop { released: false });
}

#[test]
fn the_controlled_side_gives_back() {
    let left = ClientPointer { at_left: true, at_right: false, went_left: true, went_right: false };
    let right = ClientPointer { at_left: false, at_right: true, went_left: false, went_right: true };
    let inward = ClientPointer { at_left: true, at_right: false, went_left: false, went_right: true };
    assert_eq!(client_move(1, &left), Some(vec![6, 0, 0, 0, 0, 0, 0, 0, 0]));
    assert_eq!(client_move(1, &right), None);
    assert_eq!(client_move(1, &inward), None);
    assert_eq!(client_move(0, &left), None);
    assert_eq!(client_move(0, &right), Some(vec![6, 0, 0, 0, 0, 0, 0, 0, 0]));
}
