use deskbridge::bytes::{push_le, read_le};
use deskbridge::frame::{
    button_to_u8, decode_frame, encode_frame, keepalive_packet, release_packet, u8_to_button,
    Button, Command, InputEvent, Pointer,
};
use deskbridge::keys::{key_to_u16, u16_to_key, Key};

fn array(bytes: &[u8]) -> [u8; 9] {
    let mut out = [0u8; 9];
    out.copy_from_slice(bytes);
    out
}

fn pointer(dx: f32, dy: f32) -> Pointer {
    Pointer {
        x: 0,
        y: 0,
        dx: dx.to_bits(),
        dy: dy.to_bits(),
        still: false,
        at_left: false,
        at_right: false,
    }
}

#[test]
fn key_codes() {
    assert_eq!(key_to_u16(Key::KeyA), 1);
    assert_eq!(key_to_u16(Key::KeyK), 11);
    assert_eq!(key_to_u16(Key::KeyZ), 26);
    assert_eq!(key_to_u16(Key::Num0), 27);
    assert_eq!(key_to_u16(Key::Escape), 39);
    assert_eq!(key_to_u16(Key::F12), 72);
    assert_eq!(key_to_u16(Key::Quote), 83);
    assert_eq!(u16_to_key(11), Key::KeyK);
    assert_eq!(u16_to_key(83), Key::Quote);
    assert_eq!(u16_to_key(84), Key::Unknown(0));
    assert_eq!(u16_to_key(0), Key::Unknown(0));
}

#[test]
fn keys_without_a_code() {
    assert_eq!(key_to_u16(Key::NumLock), 0);
    assert_eq!(key_to_u16(Key::Kp5), 0);
    assert_eq!(key_to_u16(Key::IntlBackslash), 0);
}

#[test]
fn unknown_keys_keep_fifteen_bits() {
    assert_eq!(key_to_u16(Key::Unknown(0)), 0x8000);
    assert_eq!(key_to_u16(Key::Unknown(0x1234)), 0x9234);
    assert_eq!(key_to_u16(Key::Unknown(0x7fff)), 0xffff);
    assert_eq!(key_to_u16(Key::Unknown(0x8001)), 0x8001);
    assert_eq!(key_to_u16(Key::Unknown(0x12_0003)), 0x8003);
    assert_eq!(u16_to_key(0x9234), Key::Unknown(0x1234));
}

#[test]
fn codes_come_back() {
    for code in 1..84u16 {
        assert_eq!(key_to_u16(u16_to_key(code)), code);
    }
    for code in 0x8000..0xffffu16 {
        assert_eq!(key_to_u16(u16_to_key(code)), code);
    }
}

#[test]
fn buttons() {
    assert_eq!(button_to_u8(Button::Left), 0);
    assert_eq!(button_to_u8(Button::Right), 1);
    assert_eq!(button_to_u8(Button::Middle), 2);
    assert_eq!(button_to_u8(Button::Unknown(9)), 9);
    assert_eq!(u8_to_button(2), Button::Middle);
    assert_eq!(u8_to_button(200), Button::Unknown(200));
    // A button that has a name of its own comes back under it.
    assert_eq!(u8_to_button(button_to_u8(Button::Unknown(1))), Button::Right);
}

#[test]
fn little_endian() {
    let mut out = Vec::new();
    push_le(&mut out, 0x0102_0304_0506_0708, 8);
    assert_eq!(out, vec![8, 7, 6, 5, 4, 3, 2, 1]);
    assert_eq!(read_le(&out), 0x0102_0304_0506_0708);
    let mut short = vec![9u8];
    push_le(&mut short, 0x1_0203, 2);
    assert_eq!(short, vec![9, 3, 2]);
    assert_eq!(read_le(&[]), 0);
}

#[test]
fn key_frames() {
    assert_eq!(
        encode_frame(&InputEvent::KeyPress(Key::KeyK)),
        vec![1, 11, 0, 0, 0, 0, 0, 0, 0]
    );
    assert_eq!(
        encode_frame(&InputEvent::KeyRelease(Key::Unknown(0x1234))),
        vec![2, 0x34, 0x92, 0, 0, 0, 0, 0, 0]
    );
}

#[test]
fn button_frames() {
    assert_eq!(
        encode_frame(&InputEvent::ButtonPress(Button::Right)),
        vec![3, 1, 0, 0, 0, 0, 0, 0, 0]
    );
    assert_eq!(
        encode_frame(&InputEvent::ButtonRelease(Button::Unknown(7))),
        vec![4, 7, 0, 0, 0, 0, 0, 0, 0]
    );
}

#[test]
fn move_frames_carry_floats() {
    let event = InputEvent::MouseMove(pointer(1.5, -2.25));
    let frame = encode_frame(&event);
    assert_eq!(frame[0], 0);
    assert_eq!(frame[1..5], 1.5f32.to_le_bytes());
    assert_eq!(frame[5..9], (-2.25f32).to_le_bytes());
    match decode_frame(&array(&frame)) {
        Command::Move { dx, dy } => {
            assert_eq!(f32::from_bits(dx), 1.5);
            assert_eq!(f32::from_bits(dy), -2.25);
        }
        other => panic!("{:?}", other),
    }
}

#[test]
fn wheel_frames() {
    let event = InputEvent::Wheel { delta_x: -1, delta_y: 300 };
    let frame = encode_frame(&event);
    assert_eq!(frame, vec![5, 255, 255, 255, 255, 44, 1, 0, 0]);
    assert_eq!(
        decode_frame(&array(&frame)),
        Command::Wheel { delta_x: -1, delta_y: 300 }
    );
}

#[test]
fn a_large_turn_loses_its_high_bits() {
    let event = InputEvent::Wheel { delta_x: 0x1_8000_0000, delta_y: i64::MIN };
    assert_eq!(
        decode_frame(&array(&encode_frame(&event))),
        Command::Wheel { delta_x: i32::MIN as i64, delta_y: 0 }
    );
}

#[test]
fn events_come_through() {
    let cases = vec![
        (InputEvent::KeyPress(Key::Return), Command::KeyPress(Key::Return)),
        (InputEvent::KeyRelease(Key::F5), Command::KeyRelease(Key::F5)),
        (InputEvent::ButtonPress(Button::Middle), Command::ButtonPress(Button::Middle)),
        (InputEvent::ButtonRelease(Button::Left), Command::ButtonRelease(Button::Left)),
        (
            InputEvent::Wheel { delta_x: i32::MIN as i64, delta_y: i32::MAX as i64 },
            Command::Wheel { delta_x: i32::MIN as i64, delta_y: i32::MAX as i64 },
        ),
        (InputEvent::KeyPress(Key::ScrollLock), Command::KeyPress(Key::Unknown(0))),
    ];
    for (event, command) in cases {
        assert_eq!(decode_frame(&array(&encode_frame(&event))), command);
    }
}

#[test]
fn control_frames() {
    assert_eq!(release_packet(), vec![6, 0, 0, 0, 0, 0, 0, 0, 0]);
    assert_eq!(keepalive_packet(), vec![7, 0, 0, 0, 0, 0, 0, 0, 0]);
    assert_eq!(decode_frame(&array(&release_packet())), Command::Nothing);
    assert_eq!(decode_frame(&array(&keepalive_packet())), Command::Nothing);
    assert_eq!(decode_frame(&[200, 1, 2, 3, 4, 5, 6, 7, 8]), Command::Nothing);
}
