//! Keys, and the codes by which they travel.

use vstd::prelude::*;

verus! {

/// A key by its place on the keyboard. A key without a name of its own is `Unknown`,
/// with the number that the system gives it.
#[derive(Clone, Copy, Debug, PartialEq, Eq, Structural)]
pub enum Key {
    Alt,
    AltGr,
    Backspace,
    CapsLock,
    ControlLeft,
    ControlRight,
    Delete,
    DownArrow,
    End,
    Escape,
    F1,
    F10,
    F11,
    F12,
    F2,
    F3,
    F4,
    F5,
    F6,
    F7,
    F8,
    F9,
    Home,
    LeftArrow,
    MetaLeft,
    MetaRight,
    PageDown,
    PageUp,
    Return,
    RightArrow,
    ShiftLeft,
    ShiftRight,
    Space,
    Tab,
    UpArrow,
    PrintScreen,
    ScrollLock,
    Pause,
    NumLock,
    BackQuote,
    Num1,
    Num2,
    Num3,
    Num4,
    Num5,
    Num6,
    Num7,
    Num8,
    Num9,
    Num0,
    Minus,
    Equal,
    KeyQ,
    KeyW,
    KeyE,
    KeyR,
    KeyT,
    KeyY,
    KeyU,
    KeyI,
    KeyO,
    KeyP,
    LeftBracket,
    RightBracket,
    KeyA,
    KeyS,
    KeyD,
    KeyF,
    KeyG,
    KeyH,
    KeyJ,
    KeyK,
    KeyL,
    SemiColon,
    Quote,
    BackSlash,
    IntlBackslash,
    KeyZ,
    KeyX,
    KeyC,
    KeyV,
    KeyB,
    KeyN,
    KeyM,
    Comma,
    Dot,
    Slash,
    Insert,
    KpReturn,
    KpMinus,
    KpPlus,
    KpMultiply,
    KpDivide,
    Kp0,
    Kp1,
    Kp2,
    Kp3,
    Kp4,
    Kp5,
    Kp6,
    Kp7,
    Kp8,
    Kp9,
    KpDelete,
    Function,
    Unknown(u32),
}

/// The code of a key: 1 to 83 for the keys of a common keyboard; the top bit and the
/// lowest 15 bits of its number for an unknown key; 0 for every other key.
pub open spec fn key_code(key: Key) -> u16 {
    match key {
        Key::KeyA => 1,
        Key::KeyB => 2,
        Key::KeyC => 3,
        Key::KeyD => 4,
        Key::KeyE => 5,
        Key::KeyF => 6,
        Key::KeyG => 7,
        Key::KeyH => 8,
        Key::KeyI => 9,
        Key::KeyJ => 10,
        Key::KeyK => 11,
        Key::KeyL => 12,
        Key::KeyM => 13,
        Key::KeyN => 14,
        Key::KeyO => 15,
        Key::KeyP => 16,
        Key::KeyQ => 17,
        Key::KeyR => 18,
        Key::KeyS => 19,
        Key::KeyT => 20,
        Key::KeyU => 21,
        Key::KeyV => 22,
        Key::KeyW => 23,
        Key::KeyX => 24,
        Key::KeyY => 25,
        Key::KeyZ => 26,
        Key::Num0 => 27,
        Key::Num1 => 28,
        Key::Num2 => 29,
        Key::Num3 => 30,
        Key::Num4 => 31,
        Key::Num5 => 32,
        Key::Num6 => 33,
        Key::Num7 => 34,
        Key::Num8 => 35,
        Key::Num9 => 36,
        Key::Space => 37,
        Key::Return => 38,
        Key::Escape => 39,
        Key::Backspace => 40,
        Key::Tab => 41,
        Key::ShiftLeft => 42,
        Key::ShiftRight => 43,
        Key::ControlLeft => 44,
        Key::ControlRight => 45,
        Key::Alt => 46,
        Key::AltGr => 47,
        Key::MetaLeft => 48,
        Key::MetaRight => 49,
        Key::CapsLock => 50,
        Key::UpArrow => 51,
        Key::DownArrow => 52,
        Key::LeftArrow => 53,
        Key::RightArrow => 54,
        Key::Delete => 55,
        Key::Insert => 56,
        Key::Home => 57,
        Key::End => 58,
        Key::PageUp => 59,
        Key::PageDown => 60,
        Key::F1 => 61,
        Key::F2 => 62,
        Key::F3 => 63,
        Key::F4 => 64,
        Key::F5 => 65,
        Key::F6 => 66,
        Key::F7 => 67,
        Key::F8 => 68,
        Key::F9 => 69,
        Key::F10 => 70,
        Key::F11 => 71,
        Key::F12 => 72,
        Key::SemiColon => 73,
        Key::Equal => 74,
        Key::Comma => 75,
        Key::Minus => 76,
        Key::Dot => 77,
        Key::Slash => 78,
        Key::BackQuote => 79,
        Key::LeftBracket => 80,
        Key::BackSlash => 81,
        Key::RightBracket => 82,
        Key::Quote => 83,
        Key::Unknown(number) => (0x8000 + number % 0x8000) as u16,
        _ => 0,
    }
}

/// The key with a given code, as the receiving side understands it.
pub open spec fn key_of(code: u16) -> Key {
    if code >= 0x8000 {
        Key::Unknown((code - 0x8000) as u32)
    } else {
        match code {
            1 => Key::KeyA,
            2 => Key::KeyB,
            3 => Key::KeyC,
            4 => Key::KeyD,
            5 => Key::KeyE,
            6 => Key::KeyF,
            7 => Key::KeyG,
            8 => Key::KeyH,
            9 => Key::KeyI,
            10 => Key::KeyJ,
            11 => Key::KeyK,
            12 => Key::KeyL,
            13 => Key::KeyM,
            14 => Key::KeyN,
            15 => Key::KeyO,
            16 => Key::KeyP,
            17 => Key::KeyQ,
            18 => Key::KeyR,
            19 => Key::KeyS,
            20 => Key::KeyT,
            21 => Key::KeyU,
            22 => Key::KeyV,
            23 => Key::KeyW,
            24 => Key::KeyX,
            25 => Key::KeyY,
            26 => Key::KeyZ,
            27 => Key::Num0,
            28 => Key::Num1,
            29 => Key::Num2,
            30 => Key::Num3,
            31 => Key::Num4,
            32 => Key::Num5,
            33 => Key::Num6,
            34 => Key::Num7,
            35 => Key::Num8,
            36 => Key::Num9,
            37 => Key::Space,
            38 => Key::Return,
            39 => Key::Escape,
            40 => Key::Backspace,
            41 => Key::Tab,
            42 => Key::ShiftLeft,
            43 => Key::ShiftRight,
            44 => Key::ControlLeft,
            45 => Key::ControlRight,
            46 => Key::Alt,
            47 => Key::AltGr,
            48 => Key::MetaLeft,
            49 => Key::MetaRight,
            50 => Key::CapsLock,
            51 => Key::UpArrow,
            52 => Key::DownArrow,
            53 => Key::LeftArrow,
            54 => Key::RightArrow,
            55 => Key::Delete,
            56 => Key::Insert,
            57 => Key::Home,
            58 => Key::End,
            59 => Key::PageUp,
            60 => Key::PageDown,
            61 => Key::F1,
            62 => Key::F2,
            63 => Key::F3,
            64 => Key::F4,
            65 => Key::F5,
            66 => Key::F6,
            67 => Key::F7,
            68 => Key::F8,
            69 => Key::F9,
            70 => Key::F10,
            71 => Key::F11,
            72 => Key::F12,
            73 => Key::SemiColon,
            74 => Key::Equal,
            75 => Key::Comma,
            76 => Key::Minus,
            77 => Key::Dot,
            78 => Key::Slash,
            79 => Key::BackQuote,
            80 => Key::LeftBracket,
            81 => Key::BackSlash,
            82 => Key::RightBracket,
            83 => Key::Quote,
            _ => Key::Unknown(0),
        }
    }
}

/// Whether a key has a code that no other key shares.
pub open spec fn is_coded(key: Key) -> bool {
    match key {
        Key::Unknown(number) => number < 0x8000,
        _ => key_code(key) != 0,
    }
}

/// The code by which a key travels.
pub fn key_to_u16(key: Key) -> (code: u16)
    ensures
        code == key_code(key),
{
    match key {
        Key::KeyA => 1,
        Key::KeyB => 2,
        Key::KeyC => 3,
        Key::KeyD => 4,
        Key::KeyE => 5,
        Key::KeyF => 6,
        Key::KeyG => 7,
        Key::KeyH => 8,
        Key::KeyI => 9,
        Key::KeyJ => 10,
        Key::KeyK => 11,
        Key::KeyL => 12,
        Key::KeyM => 13,
        Key::KeyN => 14,
        Key::KeyO => 15,
        Key::KeyP => 16,
        Key::KeyQ => 17,
        Key::KeyR => 18,
        Key::KeyS => 19,
        Key::KeyT => 20,
        Key::KeyU => 21,
        Key::KeyV => 22,
        Key::KeyW => 23,
        Key::KeyX => 24,
        Key::KeyY => 25,
        Key::KeyZ => 26,
        Key::Num0 => 27,
        Key::Num1 => 28,
        Key::Num2 => 29,
        Key::Num3 => 30,
        Key::Num4 => 31,
        Key::Num5 => 32,
        Key::Num6 => 33,
        Key::Num7 => 34,
        Key::Num8 => 35,
        Key::Num9 => 36,
        Key::Space => 37,
        Key::Return => 38,
        Key::Escape => 39,
        Key::Backspace => 40,
        Key::Tab => 41,
        Key::ShiftLeft => 42,
        Key::ShiftRight => 43,
        Key::ControlLeft => 44,
        Key::ControlRight => 45,
        Key::Alt => 46,
        Key::AltGr => 47,
        Key::MetaLeft => 48,
        Key::MetaRight => 49,
        Key::CapsLock => 50,
        Key::UpArrow => 51,
        Key::DownArrow => 52,
        Key::LeftArrow => 53,
        Key::RightArrow => 54,
        Key::Delete => 55,
        Key::Insert => 56,
        Key::Home => 57,
        Key::End => 58,
        Key::PageUp => 59,
        Key::PageDown => 60,
        Key::F1 => 61,
        Key::F2 => 62,
        Key::F3 => 63,
        Key::F4 => 64,
        Key::F5 => 65,
        Key::F6 => 66,
        Key::F7 => 67,
        Key::F8 => 68,
        Key::F9 => 69,
        Key::F10 => 70,
        Key::F11 => 71,
        Key::F12 => 72,
        Key::SemiColon => 73,
        Key::Equal => 74,
        Key::Comma => 75,
        Key::Minus => 76,
        Key::Dot => 77,
        Key::Slash => 78,
        Key::BackQuote => 79,
        Key::LeftBracket => 80,
        Key::BackSlash => 81,
        Key::RightBracket => 82,
        Key::Quote => 83,
        Key::Unknown(number) => 0x8000 + (number % 0x8000) as u16,
        _ => 0,
    }
}

/// The key that a code stands for.
pub fn u16_to_key(val: u16) -> (key: Key)
    ensures
        key == key_of(val),
{
    if val >= 0x8000 {
        return Key::Unknown((val - 0x8000) as u32);
    }
    match val {
        1 => Key::KeyA,
        2 => Key::KeyB,
        3 => Key::KeyC,
        4 => Key::KeyD,
        5 => Key::KeyE,
        6 => Key::KeyF,
        7 => Key::KeyG,
        8 => Key::KeyH,
        9 => Key::KeyI,
        10 => Key::KeyJ,
        11 => Key::KeyK,
        12 => Key::KeyL,
        13 => Key::KeyM,
        14 => Key::KeyN,
        15 => Key::KeyO,
        16 => Key::KeyP,
        17 => Key::KeyQ,
        18 => Key::KeyR,
        19 => Key::KeyS,
        20 => Key::KeyT,
        21 => Key::KeyU,
        22 => Key::KeyV,
        23 => Key::KeyW,
        24 => Key::KeyX,
        25 => Key::KeyY,
        26 => Key::KeyZ,
        27 => Key::Num0,
        28 => Key::Num1,
        29 => Key::Num2,
        30 => Key::Num3,
        31 => Key::Num4,
        32 => Key::Num5,
        33 => Key::Num6,
        34 => Key::Num7,
        35 => Key::Num8,
        36 => Key::Num9,
        37 => Key::Space,
        38 => Key::Return,
        39 => Key::Escape,
        40 => Key::Backspace,
        41 => Key::Tab,
        42 => Key::ShiftLeft,
        43 => Key::ShiftRight,
        44 => Key::ControlLeft,
        45 => Key::ControlRight,
        46 => Key::Alt,
        47 => Key::AltGr,
        48 => Key::MetaLeft,
        49 => Key::MetaRight,
        50 => Key::CapsLock,
        51 => Key::UpArrow,
        52 => Key::DownArrow,
        53 => Key::LeftArrow,
        54 => Key::RightArrow,
        55 => Key::Delete,
        56 => Key::Insert,
        57 => Key::Home,
        58 => Key::End,
        59 => Key::PageUp,
        60 => Key::PageDown,
        61 => Key::F1,
        62 => Key::F2,
        63 => Key::F3,
        64 => Key::F4,
        65 => Key::F5,
        66 => Key::F6,
        67 => Key::F7,
        68 => Key::F8,
        69 => Key::F9,
        70 => Key::F10,
        71 => Key::F11,
        72 => Key::F12,
        73 => Key::SemiColon,
        74 => Key::Equal,
        75 => Key::Comma,
        76 => Key::Minus,
        77 => Key::Dot,
        78 => Key::Slash,
        79 => Key::BackQuote,
        80 => Key::LeftBracket,
        81 => Key::BackSlash,
        82 => Key::RightBracket,
        83 => Key::Quote,
        _ => Key::Unknown(0),
    }
}

/// A coded key comes out of its code as it went in.
pub proof fn law_key_round_trip(key: Key)
    requires
        is_coded(key),
    ensures
        key_of(key_code(key)) == key,
{
}

/// A key without a code comes out as the unknown key number 0.
pub proof fn law_uncoded_key(key: Key)
    requires
        key_code(key) == 0,
    ensures
        key_of(key_code(key)) == Key::Unknown(0),
{
}

/// A code in use comes back from the key that it stands for.
pub proof fn law_code_round_trip(code: u16)
    requires
        1 <= code <= 83 || code >= 0x8000,
    ensures
        key_code(key_of(code)) == code,
        is_coded(key_of(code)),
{
}

/// Two coded keys with the same code are the same key.
pub proof fn law_codes_distinct(a: Key, b: Key)
    requires
        is_coded(a),
        is_coded(b),
        key_code(a) == key_code(b),
    ensures
        a == b,
{
    law_key_round_trip(a);
    law_key_round_trip(b);
}

/// The letters have the codes from 1 on, in the order of the alphabet.
pub proof fn law_codes_of_letters(i: int)
    requires
        0 <= i < 26,
    ensures
        ({
            let keys =
            seq![
                Key::KeyA, Key::KeyB, Key::KeyC, Key::KeyD, Key::KeyE, Key::KeyF, Key::KeyG,
                Key::KeyH, Key::KeyI, Key::KeyJ, Key::KeyK, Key::KeyL, Key::KeyM, Key::KeyN,
                Key::KeyO, Key::KeyP, Key::KeyQ, Key::KeyR, Key::KeyS, Key::KeyT, Key::KeyU,
                Key::KeyV, Key::KeyW, Key::KeyX, Key::KeyY, Key::KeyZ,
            ];
            &&& key_code(keys[i]) == 1 + i
            &&& key_of((1 + i) as u16) == keys[i]
        }),
{
}

/// The digits have the codes from 27 on, in their order.
pub proof fn law_codes_of_digits(i: int)
    requires
        0 <= i < 10,
    ensures
        ({
            let keys =
            seq![
                Key::Num0, Key::Num1, Key::Num2, Key::Num3, Key::Num4, Key::Num5, Key::Num6,
                Key::Num7, Key::Num8, Key::Num9,
            ];
            &&& key_code(keys[i]) == 27 + i
            &&& key_of((27 + i) as u16) == keys[i]
        }),
{
}

/// The keys that write no character and the space bar have the codes from 37 on.
pub proof fn law_codes_of_controls(i: int)
    requires
        0 <= i < 14,
    ensures
        ({
            let keys =
            seq![
                Key::Space, Key::Return, Key::Escape, Key::Backspace, Key::Tab, Key::ShiftLeft,
                Key::ShiftRight, Key::ControlLeft, Key::ControlRight, Key::Alt, Key::AltGr,
                Key::MetaLeft, Key::MetaRight, Key::CapsLock,
            ];
            &&& key_code(keys[i]) == 37 + i
            &&& key_of((37 + i) as u16) == keys[i]
        }),
{
}

/// The keys that move the cursor have the codes from 51 on.
pub proof fn law_codes_of_navigation(i: int)
    requires
        0 <= i < 10,
    ensures
        ({
            let keys =
            seq![
                Key::UpArrow, Key::DownArrow, Key::LeftArrow, Key::RightArrow, Key::Delete,
                Key::Insert, Key::Home, Key::End, Key::PageUp, Key::PageDown,
            ];
            &&& key_code(keys[i]) == 51 + i
            &&& key_of((51 + i) as u16) == keys[i]
        }),
{
}

/// The function keys have the codes from 61 on, in their order.
pub proof fn law_codes_of_functions(i: int)
    requires
        0 <= i < 12,
    ensures
        ({
            let keys =
            seq![
                Key::F1, Key::F2, Key::F3, Key::F4, Key::F5, Key::F6, Key::F7, Key::F8, Key::F9,
                Key::F10, Key::F11, Key::F12,
            ];
            &&& key_code(keys[i]) == 61 + i
            &&& key_of((61 + i) as u16) == keys[i]
        }),
{
}

/// The keys of punctuation have the codes from 73 on.
pub proof fn law_codes_of_signs(i: int)
    requires
        0 <= i < 11,
    ensures
        ({
            let keys =
            seq![
                Key::SemiColon, Key::Equal, Key::Comma, Key::Minus, Key::Dot, Key::Slash,
                Key::BackQuote, Key::LeftBracket, Key::BackSlash, Key::RightBracket, Key::Quote,
            ];
            &&& key_code(keys[i]) == 73 + i
            &&& key_of((73 + i) as u16) == keys[i]
        }),
{
}

/// An unknown key keeps the lowest 15 bits of its number, under the highest bit.
pub proof fn law_unknown_key(number: u32, code: u16)
    ensures
        key_code(Key::Unknown(number)) == 0x8000 + number % 0x8000,
        code >= 0x8000 ==> key_of(code) == Key::Unknown((code - 0x8000) as u32),
        84 <= code < 0x8000 || code == 0 ==> key_of(code) == Key::Unknown(0),
{
}

} // verus!
