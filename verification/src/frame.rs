//! Input events, and the nine-byte frames in which the controlling computer sends
//! them to the controlled one.
//!
//! The first byte of a frame says what it is: 0 a pointer step, 1 and 2 a key pressed
//! and released, 3 and 4 a button pressed and released, 5 a turn of the wheel, 6 the
//! request to give control back, 7 a sign of life.

use crate::bytes::{push_le, read_le};
use crate::keys::{key_to_u16, u16_to_key, Key};
use vstd::prelude::*;
use vstd::slice::slice_subrange;

#[allow(unused_imports)]
use crate::bytes::{
    law_four_bytes, law_le_round_trip, law_two_bytes, le_bytes, le_value, lemma_le_bound, lemma_le_len, lemma_spans, span,
};
#[allow(unused_imports)]
use crate::keys::{is_coded, key_code, key_of, law_key_round_trip};

verus! {

/// A mouse button.
#[derive(Clone, Copy, Debug, PartialEq, Eq, Structural)]
pub enum Button {
    Left,
    Right,
    Middle,
    Unknown(u8),
}

/// A movement of the pointer, as far as it is decided on.
///
/// `x` and `y` are the position in whole pixels, rounded towards zero; `dx` and `dy`
/// the bits of the 32-bit floating-point steps from the position that was recorded
/// last. `still` says that both steps are too small to count; `at_left` and
/// `at_right` that the pointer stands within two pixels of that edge of the screen.
#[derive(Clone, Copy, Debug, PartialEq, Eq, Structural)]
pub struct Pointer {
    pub x: i32,
    pub y: i32,
    pub dx: u32,
    pub dy: u32,
    pub still: bool,
    pub at_left: bool,
    pub at_right: bool,
}

/// An event of the local keyboard or mouse.
#[derive(Clone, Copy, Debug, PartialEq, Eq, Structural)]
pub enum InputEvent {
    KeyPress(Key),
    KeyRelease(Key),
    ButtonPress(Button),
    ButtonRelease(Button),
    MouseMove(Pointer),
    Wheel { delta_x: i64, delta_y: i64 },
}

/// What a frame asks the controlled computer to do. `dx` and `dy` are the bits of
/// 32-bit floating-point steps.
#[derive(Clone, Copy, Debug, PartialEq, Eq, Structural)]
pub enum Command {
    Move { dx: u32, dy: u32 },
    KeyPress(Key),
    KeyRelease(Key),
    ButtonPress(Button),
    ButtonRelease(Button),
    Wheel { delta_x: i64, delta_y: i64 },
    Nothing,
}

/// The length of a frame in bytes.
pub const FRAME_LEN: usize = 9;

/// The byte of a button.
pub open spec fn button_byte(button: Button) -> u8 {
    match button {
        Button::Left => 0,
        Button::Right => 1,
        Button::Middle => 2,
        Button::Unknown(number) => number,
    }
}

/// The button of a byte.
pub open spec fn button_of(byte: u8) -> Button {
    if byte == 0 {
        Button::Left
    } else if byte == 1 {
        Button::Right
    } else if byte == 2 {
        Button::Middle
    } else {
        Button::Unknown(byte)
    }
}

/// `n` zero bytes.
pub open spec fn zeros(n: nat) -> Seq<u8> {
    Seq::new(n, |i: int| 0u8)
}

/// The lowest 32 bits of a number, as a number from 0 on.
pub open spec fn low32(n: int) -> nat {
    (n % 0x1_0000_0000) as nat
}

/// The signed number of 32 bits.
pub open spec fn signed32(n: nat) -> int {
    if n < 0x8000_0000 {
        n as int
    } else {
        n - 0x1_0000_0000
    }
}

/// The frame of an event.
pub open spec fn frame(event: InputEvent) -> Seq<u8> {
    match event {
        InputEvent::MouseMove(p) => seq![0u8] + le_bytes(p.dx as nat, 4) + le_bytes(
            p.dy as nat,
            4,
        ),
        InputEvent::KeyPress(key) => seq![1u8] + le_bytes(key_code(key) as nat, 2) + zeros(6),
        InputEvent::KeyRelease(key) => seq![2u8] + le_bytes(key_code(key) as nat, 2) + zeros(6),
        InputEvent::ButtonPress(button) => seq![3u8, button_byte(button)] + zeros(7),
        InputEvent::ButtonRelease(button) => seq![4u8, button_byte(button)] + zeros(7),
        InputEvent::Wheel { delta_x, delta_y } => seq![5u8] + le_bytes(low32(delta_x as int), 4)
            + le_bytes(low32(delta_y as int), 4),
    }
}

/// The frame that gives control back.
pub open spec fn release_frame() -> Seq<u8> {
    seq![6u8] + zeros(8)
}

/// The frame that only shows that the connection lives.
pub open spec fn keepalive_frame() -> Seq<u8> {
    seq![7u8] + zeros(8)
}

/// What a frame asks for.
pub open spec fn command(frame: Seq<u8>) -> Command {
    let code = le_value(frame.subrange(1, 3)) as u16;
    let first = le_value(frame.subrange(1, 5));
    let second = le_value(frame.subrange(5, 9));
    if frame[0] == 0 {
        Command::Move { dx: first as u32, dy: second as u32 }
    } else if frame[0] == 1 {
        Command::KeyPress(key_of(code))
    } else if frame[0] == 2 {
        Command::KeyRelease(key_of(code))
    } else if frame[0] == 3 {
        Command::ButtonPress(button_of(frame[1]))
    } else if frame[0] == 4 {
        Command::ButtonRelease(button_of(frame[1]))
    } else if frame[0] == 5 {
        Command::Wheel { delta_x: signed32(first) as i64, delta_y: signed32(second) as i64 }
    } else {
        Command::Nothing
    }
}

/// The command that repeats an event on the other computer.
pub open spec fn repeated(event: InputEvent) -> Command {
    match event {
        InputEvent::MouseMove(p) => Command::Move { dx: p.dx, dy: p.dy },
        InputEvent::KeyPress(key) => Command::KeyPress(key),
        InputEvent::KeyRelease(key) => Command::KeyRelease(key),
        InputEvent::ButtonPress(button) => Command::ButtonPress(button),
        InputEvent::ButtonRelease(button) => Command::ButtonRelease(button),
        InputEvent::Wheel { delta_x, delta_y } => Command::Wheel { delta_x, delta_y },
    }
}

/// Whether a frame can carry an event without loss.
pub open spec fn is_carried(event: InputEvent) -> bool {
    match event {
        InputEvent::MouseMove(_) => true,
        InputEvent::KeyPress(key) => is_coded(key),
        InputEvent::KeyRelease(key) => is_coded(key),
        InputEvent::ButtonPress(button) => button_of(button_byte(button)) == button,
        InputEvent::ButtonRelease(button) => button_of(button_byte(button)) == button,
        InputEvent::Wheel { delta_x, delta_y } => {
            &&& i32::MIN <= delta_x <= i32::MAX
            &&& i32::MIN <= delta_y <= i32::MAX
        },
    }
}

/// The byte of a button.
pub fn button_to_u8(button: Button) -> (byte: u8)
    ensures
        byte == button_byte(button),
{
    match button {
        Button::Left => 0,
        Button::Right => 1,
        Button::Middle => 2,
        Button::Unknown(number) => number,
    }
}

/// The button of a byte.
pub fn u8_to_button(byte: u8) -> (button: Button)
    ensures
        button == button_of(byte),
{
    match byte {
        0 => Button::Left,
        1 => Button::Right,
        2 => Button::Middle,
        number => Button::Unknown(number),
    }
}

/// The lowest 32 bits of a signed number.
fn low_bits(n: i64) -> (r: u64)
    ensures
        r == low32(n as int),
{
    if n >= 0 {
        (n as u64) % 0x1_0000_0000
    } else {
        let m: u64 = (-(n + 1)) as u64;
        0xffff_ffff - m % 0x1_0000_0000
    }
}

fn push_zeros(out: &mut Vec<u8>, n: usize)
    ensures
        final(out)@ == old(out)@ + zeros(n as nat),
{
    let mut i: usize = 0;
    assert(out@ == old(out)@ + zeros(0));
    while i < n
        invariant
            i <= n,
            out@ == old(out)@ + zeros(i as nat),
        decreases n - i,
    {
        out.push(0);
        assert(out@ == old(out)@ + zeros((i + 1) as nat));
        i += 1;
    }
}

/// The frame that carries an event.
pub fn encode_frame(event: &InputEvent) -> (bytes: Vec<u8>)
    ensures
        bytes@ == frame(*event),
        bytes@.len() == FRAME_LEN,
{
    let mut out: Vec<u8> = Vec::with_capacity(FRAME_LEN);
    match *event {
        InputEvent::MouseMove(p) => {
            out.push(0);
            push_le(&mut out, p.dx as u64, 4);
            push_le(&mut out, p.dy as u64, 4);
        },
        InputEvent::KeyPress(key) => {
            out.push(1);
            push_le(&mut out, key_to_u16(key) as u64, 2);
            push_zeros(&mut out, 6);
        },
        InputEvent::KeyRelease(key) => {
            out.push(2);
            push_le(&mut out, key_to_u16(key) as u64, 2);
            push_zeros(&mut out, 6);
        },
        InputEvent::ButtonPress(button) => {
            out.push(3);
            out.push(button_to_u8(button));
            push_zeros(&mut out, 7);
        },
        InputEvent::ButtonRelease(button) => {
            out.push(4);
            out.push(button_to_u8(button));
            push_zeros(&mut out, 7);
        },
        InputEvent::Wheel { delta_x, delta_y } => {
            out.push(5);
            push_le(&mut out, low_bits(delta_x), 4);
            push_le(&mut out, low_bits(delta_y), 4);
        },
    }
    proof {
        law_frame_len(*event);
        assert(out@ == frame(*event));
    }
    out
}

fn tagged(tag: u8) -> (bytes: Vec<u8>)
    ensures
        bytes@ == seq![tag] + zeros(8),
{
    let mut out: Vec<u8> = Vec::with_capacity(FRAME_LEN);
    out.push(tag);
    push_zeros(&mut out, 8);
    assert(out@ == seq![tag] + zeros(8));
    out
}

/// The frame that gives control back.
pub fn release_packet() -> (bytes: Vec<u8>)
    ensures
        bytes@ == release_frame(),
{
    tagged(6)
}

/// The frame that only shows that the connection lives.
pub fn keepalive_packet() -> (bytes: Vec<u8>)
    ensures
        bytes@ == keepalive_frame(),
{
    tagged(7)
}

fn read_signed(bytes: &[u8]) -> (n: i64)
    requires
        bytes@.len() == 4,
    ensures
        n == signed32(le_value(bytes@)),
{
    proof {
        lemma_le_bound(bytes@);
        lemma_spans();
    }
    let v = read_le(bytes);
    if v < 0x8000_0000 {
        v as i64
    } else {
        v as i64 - 0x1_0000_0000
    }
}

/// What a frame asks for.
pub fn decode_frame(buf: &[u8; 9]) -> (asked: Command)
    ensures
        asked == command(buf@),
{
    let all = buf.as_slice();
    let pair = slice_subrange(all, 1, 3);
    let first = slice_subrange(all, 1, 5);
    let second = slice_subrange(all, 5, 9);
    proof {
        lemma_le_bound(pair@);
        lemma_le_bound(first@);
        lemma_le_bound(second@);
        lemma_spans();
    }
    match buf[0] {
        0 => Command::Move { dx: read_le(first) as u32, dy: read_le(second) as u32 },
        1 => Command::KeyPress(u16_to_key(read_le(pair) as u16)),
        2 => Command::KeyRelease(u16_to_key(read_le(pair) as u16)),
        3 => Command::ButtonPress(u8_to_button(buf[1])),
        4 => Command::ButtonRelease(u8_to_button(buf[1])),
        5 => Command::Wheel { delta_x: read_signed(first), delta_y: read_signed(second) },
        _ => Command::Nothing,
    }
}

/// Every frame has nine bytes.
pub proof fn law_frame_len(event: InputEvent)
    ensures
        frame(event).len() == FRAME_LEN,
        release_frame().len() == FRAME_LEN,
        keepalive_frame().len() == FRAME_LEN,
{
    match event {
        InputEvent::MouseMove(p) => {
            lemma_le_len(p.dx as nat, 4);
            lemma_le_len(p.dy as nat, 4);
        },
        InputEvent::KeyPress(key) => {
            lemma_le_len(key_code(key) as nat, 2);
        },
        InputEvent::KeyRelease(key) => {
            lemma_le_len(key_code(key) as nat, 2);
        },
        InputEvent::Wheel { delta_x, delta_y } => {
            lemma_le_len(low32(delta_x as int), 4);
            lemma_le_len(low32(delta_y as int), 4);
        },
        _ => {},
    }
}

/// What the frame of two numbers of four bytes holds.
proof fn lemma_two_fields(tag: u8, a: nat, b: nat)
    requires
        a < 0x1_0000_0000,
        b < 0x1_0000_0000,
    ensures
        ({
            let f = seq![tag] + le_bytes(a, 4) + le_bytes(b, 4);
            &&& f[0] == tag
            &&& le_value(f.subrange(1, 5)) == a
            &&& le_value(f.subrange(5, 9)) == b
        }),
{
    lemma_spans();
    lemma_le_len(a, 4);
    lemma_le_len(b, 4);
    law_le_round_trip(a, 4);
    law_le_round_trip(b, 4);
    let f = seq![tag] + le_bytes(a, 4) + le_bytes(b, 4);
    assert(f.subrange(1, 5) == le_bytes(a, 4));
    assert(f.subrange(5, 9) == le_bytes(b, 4));
}

/// What the frame of a key holds.
proof fn lemma_key_field(tag: u8, code: u16)
    ensures
        ({
            let f = seq![tag] + le_bytes(code as nat, 2) + zeros(6);
            &&& f[0] == tag
            &&& le_value(f.subrange(1, 3)) == code
        }),
{
    lemma_spans();
    lemma_le_len(code as nat, 2);
    law_le_round_trip(code as nat, 2);
    let f = seq![tag] + le_bytes(code as nat, 2) + zeros(6);
    assert(f.subrange(1, 3) == le_bytes(code as nat, 2));
}

/// What the controlled computer is asked to do is what happened on the controlling
/// one, for every event that a frame can carry.
pub proof fn law_frame_round_trip(event: InputEvent)
    requires
        is_carried(event),
    ensures
        command(frame(event)) == repeated(event),
{
    match event {
        InputEvent::MouseMove(p) => {
            lemma_two_fields(0, p.dx as nat, p.dy as nat);
        },
        InputEvent::KeyPress(key) => {
            lemma_key_field(1, key_code(key));
            law_key_round_trip(key);
        },
        InputEvent::KeyRelease(key) => {
            lemma_key_field(2, key_code(key));
            law_key_round_trip(key);
        },
        InputEvent::Wheel { delta_x, delta_y } => {
            lemma_two_fields(5, low32(delta_x as int), low32(delta_y as int));
        },
        _ => {},
    }
}

/// A turn of the wheel that is too large arrives as its lowest 32 bits, a key without
/// a code as the unknown key number 0.
pub proof fn law_frame_losses(event: InputEvent)
    ensures
        event matches InputEvent::Wheel { delta_x, delta_y } ==> command(frame(event)) == (
        Command::Wheel {
            delta_x: signed32(low32(delta_x as int)) as i64,
            delta_y: signed32(low32(delta_y as int)) as i64,
        }),
        event matches InputEvent::KeyPress(key) ==> key_code(key) == 0 ==> command(frame(event))
            == Command::KeyPress(Key::Unknown(0)),
        event matches InputEvent::KeyRelease(key) ==> key_code(key) == 0 ==> command(frame(event))
            == Command::KeyRelease(Key::Unknown(0)),
{
    match event {
        InputEvent::Wheel { delta_x, delta_y } => {
            lemma_two_fields(5, low32(delta_x as int), low32(delta_y as int));
        },
        InputEvent::KeyPress(key) => {
            lemma_key_field(1, key_code(key));
        },
        InputEvent::KeyRelease(key) => {
            lemma_key_field(2, key_code(key));
        },
        _ => {},
    }
}

/// The two frames without an event ask the controlled computer for nothing.
pub proof fn law_control_frames_ask_nothing()
    ensures
        command(release_frame()) == Command::Nothing,
        command(keepalive_frame()) == Command::Nothing,
{
}

/// A frame byte by byte: first what it is, then what it carries, and zeros to the end. A
/// number has its lowest byte first.
pub proof fn law_frame_layout(event: InputEvent)
    ensures
        ({
            let f = frame(event);
            &&& f.len() == 9
            &&& match event {
                InputEvent::MouseMove(p) => {
                    &&& f[0] == 0
                    &&& f[1] + 256 * f[2] + 65536 * f[3] + 16777216 * f[4] == p.dx
                    &&& f[5] + 256 * f[6] + 65536 * f[7] + 16777216 * f[8] == p.dy
                },
                InputEvent::KeyPress(key) => f[0] == 1 && f[1] + 256 * f[2] == key_code(key),
                InputEvent::KeyRelease(key) => f[0] == 2 && f[1] + 256 * f[2] == key_code(key),
                InputEvent::ButtonPress(button) => f[0] == 3 && f[1] == match button {
                    Button::Left => 0,
                    Button::Right => 1,
                    Button::Middle => 2,
                    Button::Unknown(number) => number as int,
                },
                InputEvent::ButtonRelease(button) => f[0] == 4 && f[1] == match button {
                    Button::Left => 0,
                    Button::Right => 1,
                    Button::Middle => 2,
                    Button::Unknown(number) => number as int,
                },
                InputEvent::Wheel { delta_x, delta_y } => {
                    &&& f[0] == 5
                    &&& (f[1] + 256 * f[2] + 65536 * f[3] + 16777216 * f[4] - delta_x)
                        % 0x1_0000_0000 == 0
                    &&& (f[5] + 256 * f[6] + 65536 * f[7] + 16777216 * f[8] - delta_y)
                        % 0x1_0000_0000 == 0
                },
            }
            &&& event is KeyPress || event is KeyRelease ==> forall|i: int|
                3 <= i < 9 ==> #[trigger] f[i] == 0
            &&& event is ButtonPress || event is ButtonRelease ==> forall|i: int|
                2 <= i < 9 ==> #[trigger] f[i] == 0
        }),
{
    law_frame_len(event);
    let f = frame(event);
    match event {
        InputEvent::MouseMove(p) => {
            lemma_two_fields(0, p.dx as nat, p.dy as nat);
            law_four_bytes(f.subrange(1, 5));
            law_four_bytes(f.subrange(5, 9));
        },
        InputEvent::KeyPress(key) => {
            lemma_key_field(1, key_code(key));
            lemma_le_len(key_code(key) as nat, 2);
            law_two_bytes(f.subrange(1, 3));
        },
        InputEvent::KeyRelease(key) => {
            lemma_key_field(2, key_code(key));
            lemma_le_len(key_code(key) as nat, 2);
            law_two_bytes(f.subrange(1, 3));
        },
        InputEvent::Wheel { delta_x, delta_y } => {
            lemma_two_fields(5, low32(delta_x as int), low32(delta_y as int));
            law_four_bytes(f.subrange(1, 5));
            law_four_bytes(f.subrange(5, 9));
        },
        _ => {},
    }
}

/// The two frames without an event: their first byte, and zeros.
pub proof fn law_control_frames()
    ensures
        release_frame() == seq![6u8, 0, 0, 0, 0, 0, 0, 0, 0],
        keepalive_frame() == seq![7u8, 0, 0, 0, 0, 0, 0, 0, 0],
{
}

/// What any nine bytes ask for: by the first byte, with what the others carry.
pub proof fn law_command_reads(f: Seq<u8>)
    requires
        f.len() == 9,
    ensures
        ({
            let first = f[1] + 256 * f[2] + 65536 * f[3] + 16777216 * f[4];
            let second = f[5] + 256 * f[6] + 65536 * f[7] + 16777216 * f[8];
            let button = if f[1] == 0 {
                Button::Left
            } else if f[1] == 1 {
                Button::Right
            } else if f[1] == 2 {
                Button::Middle
            } else {
                Button::Unknown(f[1])
            };
            &&& f[0] == 0 ==> (command(f) matches Command::Move { dx, dy } && dx == first && dy
                == second)
            &&& f[0] == 1 ==> command(f) == Command::KeyPress(
                key_of((f[1] + 256 * f[2]) as u16),
            )
            &&& f[0] == 2 ==> command(f) == Command::KeyRelease(
                key_of((f[1] + 256 * f[2]) as u16),
            )
            &&& f[0] == 3 ==> command(f) == Command::ButtonPress(button)
            &&& f[0] == 4 ==> command(f) == Command::ButtonRelease(button)
            &&& f[0] == 5 ==> (command(f) matches Command::Wheel { delta_x, delta_y } && {
                &&& -0x8000_0000 <= delta_x < 0x8000_0000 && -0x8000_0000 <= delta_y < 0x8000_0000
                &&& delta_x == first || delta_x == first - 0x1_0000_0000
                &&& delta_y == second || delta_y == second - 0x1_0000_0000
            })
            &&& f[0] > 5 ==> command(f) is Nothing
        }),
{
    law_two_bytes(f.subrange(1, 3));
    law_four_bytes(f.subrange(1, 5));
    law_four_bytes(f.subrange(5, 9));
}

} // verus!
