//! Sharing keyboard and mouse: the state of the controlling computer, and what it does
//! with each local input event.

use crate::frame::{encode_frame, InputEvent};
use crate::keys::{key_to_u16, Key};
use vstd::prelude::*;
use vstd::string::StringExecFns;

verus! {

/// The key combination that takes and gives back control.
#[derive(Clone, Copy, Debug, PartialEq, Eq, Structural)]
pub struct Hotkey {
    pub ctrl: bool,
    pub alt: bool,
    pub shift: bool,
    pub key_code: u16,
}

/// Everything that the controlling computer remembers.
///
/// `active` says that the other computer is being controlled; `is_connecting` that an
/// attempt to reach it is under way. The client's screen lies to the right where
/// `border_direction` is 1, else to the left.
#[derive(Clone, Debug)]
pub struct KvmState {
    pub enabled: bool,
    pub active: bool,
    pub is_connecting: bool,
    pub ctrl_pressed: bool,
    pub alt_pressed: bool,
    pub shift_pressed: bool,
    pub border_x: u16,
    pub border_direction: u8,
    pub screen_width: u16,
    pub screen_height: u16,
    pub last_x: i32,
    pub last_y: i32,
    pub hotkey: Hotkey,
    pub target_ip: String,
}

/// What is to be done after an input event, beside passing or swallowing it.
#[derive(Clone, Debug, PartialEq, Eq)]
pub enum GrabAction {
    /// Nothing.
    Nothing,
    /// Free the cursor: the emergency combination was pressed.
    ReleaseByFailsafe,
    /// Free the cursor: the hotkey was pressed.
    ReleaseByHotkey,
    /// Start a session with this address: the hotkey was pressed.
    ConnectByHotkey(String),
    /// Start a session with this address: the pointer reached the border.
    ConnectByBorder(String),
    /// Send this frame to the controlled computer.
    Send(Vec<u8>),
}

/// `GrabAction` over mathematical values.
pub enum Effect {
    Nothing,
    ReleaseByFailsafe,
    ReleaseByHotkey,
    ConnectByHotkey(Seq<char>),
    ConnectByBorder(Seq<char>),
    Send(Seq<u8>),
}

impl View for GrabAction {
    type V = Effect;

    open spec fn view(&self) -> Effect {
        match self {
            GrabAction::Nothing => Effect::Nothing,
            GrabAction::ReleaseByFailsafe => Effect::ReleaseByFailsafe,
            GrabAction::ReleaseByHotkey => Effect::ReleaseByHotkey,
            GrabAction::ConnectByHotkey(ip) => Effect::ConnectByHotkey(ip@),
            GrabAction::ConnectByBorder(ip) => Effect::ConnectByBorder(ip@),
            GrabAction::Send(bytes) => Effect::Send(bytes@),
        }
    }
}

/// The answer to an input event: whether the local computer gets it, and what else is
/// to be done.
#[derive(Clone, Debug, PartialEq, Eq)]
pub struct GrabOutcome {
    pub pass: bool,
    pub action: GrabAction,
}

/// A state, whether the event passes, and the effect.
pub struct Grabbed {
    pub next: KvmState,
    pub pass: bool,
    pub effect: Effect,
}

/// What the user interface is told about a session. `role` is "host", "client" or
/// "idle".
#[derive(Clone, Debug, PartialEq, Eq)]
pub struct KvmStatusUpdate {
    pub active: bool,
    pub role: String,
    pub target: String,
}

/// A rectangle on the screen, in pixels.
#[derive(Clone, Copy, Debug, PartialEq, Eq, Structural)]
pub struct CaptureRect {
    pub left: i32,
    pub top: i32,
    pub right: i32,
    pub bottom: i32,
}

/// A point on the screen, in half pixels.
#[derive(Clone, Copy, Debug, PartialEq, Eq, Structural)]
pub struct HalfPixels {
    pub x: i128,
    pub y: i128,
}

/// A session that was asked for by hand: whom to connect to, and what to answer.
#[derive(Clone, Debug, PartialEq, Eq)]
pub struct ManualSession {
    pub target: String,
    pub reply: String,
}

/// The state after a key went down or up, as far as it is a modifier.
pub open spec fn with_modifier(s: KvmState, key: Key, down: bool) -> KvmState {
    if key == Key::ControlLeft || key == Key::ControlRight {
        KvmState { ctrl_pressed: down, ..s }
    } else if key == Key::Alt || key == Key::AltGr {
        KvmState { alt_pressed: down, ..s }
    } else if key == Key::ShiftLeft || key == Key::ShiftRight {
        KvmState { shift_pressed: down, ..s }
    } else {
        s
    }
}

/// The state with the modifiers as they are after an event.
pub open spec fn tracked_modifiers(s: KvmState, event: InputEvent) -> KvmState {
    match event {
        InputEvent::KeyPress(key) => with_modifier(s, key, true),
        InputEvent::KeyRelease(key) => with_modifier(s, key, false),
        _ => s,
    }
}

/// The emergency combination Ctrl + Alt + Escape, during a session.
pub open spec fn is_failsafe(s: KvmState, event: InputEvent) -> bool {
    event == InputEvent::KeyPress(Key::Escape) && s.active && s.ctrl_pressed && s.alt_pressed
}

/// The hotkey: its key, with exactly its modifiers.
pub open spec fn is_hotkey(s: KvmState, event: InputEvent) -> bool {
    &&& event matches InputEvent::KeyPress(key)
    &&& crate::keys::key_code(key) == s.hotkey.key_code
    &&& s.ctrl_pressed == s.hotkey.ctrl
    &&& s.alt_pressed == s.hotkey.alt
    &&& s.shift_pressed == s.hotkey.shift
}

/// The pointer at the border behind which the other screen lies.
pub open spec fn is_at_border(s: KvmState, event: InputEvent) -> bool {
    &&& event matches InputEvent::MouseMove(p)
    &&& if s.border_direction == 1 {
        p.at_right
    } else {
        p.at_left
    }
}

/// Whether a new session may be started.
pub open spec fn may_connect(s: KvmState) -> bool {
    s.target_ip@.len() > 0 && !s.is_connecting
}

/// What an input event leads to.
pub open spec fn grabbed(s: KvmState, event: InputEvent) -> Grabbed {
    let t = tracked_modifiers(s, event);
    if !s.enabled {
        Grabbed { next: s, pass: true, effect: Effect::Nothing }
    } else if is_failsafe(t, event) {
        Grabbed {
            next: deactivated(t),
            pass: false,
            effect: Effect::ReleaseByFailsafe,
        }
    } else if is_hotkey(t, event) && t.active {
        Grabbed {
            next: deactivated(t),
            pass: false,
            effect: Effect::ReleaseByHotkey,
        }
    } else if is_hotkey(t, event) && may_connect(t) {
        Grabbed {
            next: KvmState { is_connecting: true, ..t },
            pass: false,
            effect: Effect::ConnectByHotkey(t.target_ip@),
        }
    } else if is_hotkey(t, event) {
        Grabbed { next: t, pass: false, effect: Effect::Nothing }
    } else if !t.active && is_at_border(t, event) && may_connect(t) {
        Grabbed {
            next: KvmState { is_connecting: true, ..t },
            pass: true,
            effect: Effect::ConnectByBorder(t.target_ip@),
        }
    } else if !t.active {
        Grabbed { next: t, pass: true, effect: Effect::Nothing }
    } else {
        match event {
            InputEvent::MouseMove(p) => Grabbed {
                next: KvmState { last_x: p.x, last_y: p.y, ..t },
                pass: false,
                effect: if p.still {
                    Effect::Nothing
                } else {
                    Effect::Send(crate::frame::frame(event))
                },
            },
            _ => Grabbed {
                next: t,
                pass: false,
                effect: Effect::Send(crate::frame::frame(event)),
            },
        }
    }
}

/// A state, and the answer to a session that was asked for by hand: whom to connect to,
/// or why not.
pub struct Triggered {
    pub next: KvmState,
    pub answer: Result<Seq<char>, Seq<char>>,
}

/// What follows where a session is asked for by hand.
pub open spec fn triggered(s: KvmState, accessible: bool) -> Triggered {
    if !accessible {
        Triggered { next: s, answer: Err("accessibility_not_granted"@) }
    } else if s.target_ip@.len() == 0 {
        Triggered { next: s, answer: Err("no_target_ip_configured"@) }
    } else if s.is_connecting {
        Triggered { next: s, answer: Err("already_connecting"@) }
    } else {
        Triggered { next: KvmState { is_connecting: true, ..s }, answer: Ok(s.target_ip@) }
    }
}

/// What can start a session: an input event, or the wish of the user, with whether the
/// system permits it.
pub enum Occasion {
    Input(InputEvent),
    ByHand(bool),
}

/// The state after an occasion.
pub open spec fn after(s: KvmState, occasion: Occasion) -> KvmState {
    match occasion {
        Occasion::Input(event) => grabbed(s, event).next,
        Occasion::ByHand(accessible) => triggered(s, accessible).next,
    }
}

/// The address to which an occasion begins to connect, if it does.
pub open spec fn attempt(s: KvmState, occasion: Occasion) -> Option<Seq<char>> {
    match occasion {
        Occasion::Input(event) => match grabbed(s, event).effect {
            Effect::ConnectByHotkey(ip) => Some(ip),
            Effect::ConnectByBorder(ip) => Some(ip),
            _ => None,
        },
        Occasion::ByHand(accessible) => match triggered(s, accessible).answer {
            Ok(ip) => Some(ip),
            Err(_) => None,
        },
    }
}

/// How many attempts to connect a series of occasions begins, while none of them ends.
pub open spec fn attempts(s: KvmState, occasions: Seq<Occasion>) -> nat
    decreases occasions.len(),
{
    if occasions.len() == 0 {
        0
    } else {
        let rest = attempts(after(s, occasions[0]), occasions.skip(1));
        if attempt(s, occasions[0]) is Some {
            1 + rest
        } else {
            rest
        }
    }
}

/// The state after the control of the other computer has ended.
pub open spec fn deactivated(s: KvmState) -> KvmState {
    KvmState { active: false, ..s }
}

/// Half of a screen length in whole pixels, as far as it can be held.
pub open spec fn middle(length: u64) -> int {
    if length / 2 <= i32::MAX {
        (length / 2) as int
    } else {
        i32::MAX as int
    }
}

impl KvmState {
    /// The state at the start: sharing is off, the hotkey is Ctrl + Alt + K, the
    /// other screen lies to the right of one of 1920 by 1080 pixels.
    pub fn new() -> (s: KvmState)
        ensures
            !s.enabled && !s.active && !s.is_connecting,
            !s.ctrl_pressed && !s.alt_pressed && !s.shift_pressed,
            s.border_x == 1919 && s.border_direction == 1,
            s.screen_width == 1920 && s.screen_height == 1080,
            s.last_x == 0 && s.last_y == 0,
            s.hotkey == (Hotkey { ctrl: true, alt: true, shift: false, key_code: 11 }),
            s.target_ip@ == ""@,
    {
        let target_ip = String::new();
        proof {
            reveal_strlit("");
            assert(target_ip@ == ""@);
        }
        KvmState {
            enabled: false,
            active: false,
            is_connecting: false,
            ctrl_pressed: false,
            alt_pressed: false,
            shift_pressed: false,
            border_x: 1919,
            border_direction: 1,
            screen_width: 1920,
            screen_height: 1080,
            last_x: 0,
            last_y: 0,
            hotkey: Hotkey { ctrl: true, alt: true, shift: false, key_code: 11 },
            target_ip,
        }
    }
}

/// The address of the computer to control.
pub fn get_target_ip(state: &KvmState) -> (ip: String)
    ensures
        ip@ == state.target_ip@,
{
    state.target_ip.clone()
}

/// Sets the address of the computer to control.
pub fn set_target_ip(state: &mut KvmState, ip: String)
    ensures
        *final(state) == (KvmState { target_ip: ip, ..*old(state) }),
{
    state.target_ip = ip;
}

/// Whether the system lets the program watch the input devices. Only one system asks
/// its user for that; on the others there is nothing to grant.
pub fn check_accessibility() -> (granted: bool)
    ensures
        granted,
{
    true
}

/// Ends the control of the other computer. Returns whether there was a session, that
/// is, whether the cursor has to be freed.
pub fn deactivate_kvm_host(state: &mut KvmState) -> (released: bool)
    ensures
        released == old(state).active,
        *final(state) == deactivated(*old(state)),
{
    let was_active = state.active;
    state.active = false;
    was_active
}

fn set_modifier(state: &mut KvmState, key: Key, down: bool)
    ensures
        *final(state) == with_modifier(*old(state), key, down),
{
    if key == Key::ControlLeft || key == Key::ControlRight {
        state.ctrl_pressed = down;
    } else if key == Key::Alt || key == Key::AltGr {
        state.alt_pressed = down;
    } else if key == Key::ShiftLeft || key == Key::ShiftRight {
        state.shift_pressed = down;
    }
}

/// Decides on an event of the local keyboard or mouse.
pub fn grab_callback(state: &mut KvmState, event: &InputEvent) -> (out: GrabOutcome)
    ensures
        *final(state) == grabbed(*old(state), *event).next,
        out.pass == grabbed(*old(state), *event).pass,
        out.action@ == grabbed(*old(state), *event).effect,
{
    if !state.enabled {
        return GrabOutcome { pass: true, action: GrabAction::Nothing };
    }
    match *event {
        InputEvent::KeyPress(key) => {
            set_modifier(state, key, true);
            if state.active && key == Key::Escape && state.ctrl_pressed && state.alt_pressed {
                deactivate_kvm_host(state);
                return GrabOutcome { pass: false, action: GrabAction::ReleaseByFailsafe };
            }
            if key_to_u16(key) == state.hotkey.key_code && state.ctrl_pressed == state.hotkey.ctrl
                && state.alt_pressed == state.hotkey.alt && state.shift_pressed
                == state.hotkey.shift {
                if state.active {
                    deactivate_kvm_host(state);
                    return GrabOutcome { pass: false, action: GrabAction::ReleaseByHotkey };
                }
                let target = get_target_ip(state);
                if !target.as_str().is_empty() && !state.is_connecting {
                    state.is_connecting = true;
                    return GrabOutcome { pass: false, action: GrabAction::ConnectByHotkey(target) };
                }
                return GrabOutcome { pass: false, action: GrabAction::Nothing };
            }
        },
        InputEvent::KeyRelease(key) => {
            set_modifier(state, key, false);
        },
        _ => {},
    }
    if !state.active {
        if let InputEvent::MouseMove(p) = *event {
            let hit = if state.border_direction == 1 {
                p.at_right
            } else {
                p.at_left
            };
            if hit && !state.is_connecting {
                let target = get_target_ip(state);
                if !target.as_str().is_empty() {
                    state.is_connecting = true;
                    return GrabOutcome { pass: true, action: GrabAction::ConnectByBorder(target) };
                }
            }
        }
        return GrabOutcome { pass: true, action: GrabAction::Nothing };
    }
    if let InputEvent::MouseMove(p) = *event {
        state.last_x = p.x;
        state.last_y = p.y;
        if p.still {
            return GrabOutcome { pass: false, action: GrabAction::Nothing };
        }
    }
    GrabOutcome { pass: false, action: GrabAction::Send(encode_frame(event)) }
}

/// The size of the screen in pixels: as the display reports it, else as it was
/// configured.
pub fn get_screen_size(state: &KvmState, display: Option<(u64, u64)>) -> (size: (u64, u64))
    ensures
        size == match display {
            Some(reported) => reported,
            None => (state.screen_width as u64, state.screen_height as u64),
        },
{
    match display {
        Some(reported) => reported,
        None => (state.screen_width as u64, state.screen_height as u64),
    }
}

fn half(length: u64) -> (pixels: i32)
    ensures
        pixels == middle(length),
{
    if length / 2 <= 0x7fff_ffff {
        (length / 2) as i32
    } else {
        i32::MAX
    }
}

/// The rectangle of one pixel in the middle of the screen, to which the cursor is
/// bound during a session.
pub fn platform_capture_cursor(width: u64, height: u64) -> (rect: CaptureRect)
    requires
        middle(width) < i32::MAX,
        middle(height) < i32::MAX,
    ensures
        rect.left == middle(width) && rect.right == rect.left + 1,
        rect.top == middle(height) && rect.bottom == rect.top + 1,
{
    let cx = half(width);
    let cy = half(height);
    CaptureRect { left: cx, top: cy, right: cx + 1, bottom: cy + 1 }
}

/// The middle of the screen, where the pointer is put when a session starts.
pub fn center_point(width: u64, height: u64) -> (p: HalfPixels)
    ensures
        p.x == width && p.y == height,
{
    HalfPixels { x: width as i128, y: height as i128 }
}

/// Where the pointer is put when a session ends: 20 pixels from the border, so that it
/// does not start the next session at once, and at half the height.
pub fn release_point(direction: u8, width: u64, height: u64) -> (p: HalfPixels)
    ensures
        direction == 1 ==> p.x == 2 * (width - 20),
        direction != 1 ==> p.x == 2 * 20,
        p.y == height,
{
    let x: i128 = if direction == 1 {
        2 * (width as i128 - 20)
    } else {
        40
    };
    HalfPixels { x, y: height as i128 }
}

/// The network address at which a computer can be controlled.
pub fn kvm_address(ip: &str) -> (address: String)
    ensures
        address@ == ip@ + ":53201"@,
{
    let mut address = ip.to_owned();
    address.append(":53201");
    address
}

/// Starts a session: the connection stands.
pub fn begin_session(state: &mut KvmState)
    ensures
        *final(state) == (KvmState { active: true, is_connecting: false, ..*old(state) }),
{
    state.active = true;
    state.is_connecting = false;
}

/// Records the middle of the screen as the position of the pointer.
pub fn anchor_pointer(state: &mut KvmState, width: u64, height: u64)
    ensures
        final(state).last_x == middle(width),
        final(state).last_y == middle(height),
        *final(state) == (KvmState {
            last_x: final(state).last_x,
            last_y: final(state).last_y,
            ..*old(state)
        }),
{
    state.last_x = half(width);
    state.last_y = half(height);
}

/// Gives up a session: the other computer could not be reached.
pub fn connect_failed(state: &mut KvmState)
    ensures
        *final(state) == (KvmState { is_connecting: false, ..*old(state) }),
{
    state.is_connecting = false;
}

/// The news that this computer controls another.
pub fn host_status(ip: &str) -> (update: KvmStatusUpdate)
    ensures
        update.active,
        update.role@ == "host"@,
        update.target@ == ip@,
{
    KvmStatusUpdate { active: true, role: "host".to_owned(), target: ip.to_owned() }
}

/// The news that this computer is controlled by another.
pub fn client_status(peer: &str) -> (update: KvmStatusUpdate)
    ensures
        update.active,
        update.role@ == "client"@,
        update.target@ == peer@,
{
    KvmStatusUpdate { active: true, role: "client".to_owned(), target: peer.to_owned() }
}

/// The news that a session is over.
pub fn idle_status() -> (update: KvmStatusUpdate)
    ensures
        !update.active,
        update.role@ == "idle"@,
        update.target@ == ""@,
{
    KvmStatusUpdate { active: false, role: "idle".to_owned(), target: "".to_owned() }
}

/// Configures the sharing. Refused where it is to be switched on and the system does
/// not permit it; then nothing changes.
pub fn configure_kvm(
    state: &mut KvmState,
    accessible: bool,
    enabled: bool,
    target_ip: String,
    screen_w: u16,
    screen_h: u16,
    border_x: u16,
    direction: u8,
) -> (r: Result<String, String>)
    ensures
        enabled && !accessible ==> {
            &&& r matches Err(e)
            &&& e@ == "accessibility_not_granted"@
            &&& *final(state) == *old(state)
        },
        !enabled || accessible ==> {
            &&& r matches Ok(reply)
            &&& reply@ == "success"@
            &&& *final(state) == (KvmState {
                enabled,
                target_ip,
                screen_width: screen_w,
                screen_height: screen_h,
                border_x,
                border_direction: direction,
                ..*old(state)
            })
        },
{
    if enabled && !accessible {
        return Err("accessibility_not_granted".to_owned());
    }
    state.enabled = enabled;
    set_target_ip(state, target_ip);
    state.screen_width = screen_w;
    state.screen_height = screen_h;
    state.border_x = border_x;
    state.border_direction = direction;
    Ok("success".to_owned())
}

/// Asks for a session by hand: with whom, or why not. While an attempt to connect is
/// under way, no second one is begun.
pub fn trigger_manual_control(state: &mut KvmState, accessible: bool) -> (r: Result<
    ManualSession,
    String,
>)
    ensures
        *final(state) == triggered(*old(state), accessible).next,
        match triggered(*old(state), accessible).answer {
            Ok(target) => {
                &&& r matches Ok(session)
                &&& session.target@ == target
                &&& session.reply@ == "session_initiated"@
            },
            Err(reason) => r matches Err(e) && e@ == reason,
        },
{
    if !accessible {
        return Err("accessibility_not_granted".to_owned());
    }
    let target = get_target_ip(state);
    if target.as_str().is_empty() {
        return Err("no_target_ip_configured".to_owned());
    }
    if state.is_connecting {
        return Err("already_connecting".to_owned());
    }
    state.is_connecting = true;
    Ok(ManualSession { target, reply: "session_initiated".to_owned() })
}

/// Gives control back by hand. The flag says whether the cursor has to be freed.
pub fn release_manual_control(state: &mut KvmState) -> (r: (bool, Result<String, String>))
    ensures
        r.0 == old(state).active,
        r.1 matches Ok(reply) && reply@ == "control_released"@,
        *final(state) == deactivated(*old(state)),
{
    let released = deactivate_kvm_host(state);
    (released, Ok("control_released".to_owned()))
}

/// Sets the hotkey.
pub fn set_kvm_hotkey(
    state: &mut KvmState,
    ctrl: bool,
    alt: bool,
    shift: bool,
    key_code: u16,
) -> (r: Result<(), String>)
    ensures
        r is Ok,
        *final(state) == (KvmState {
            hotkey: Hotkey { ctrl, alt, shift, key_code },
            ..*old(state)
        }),
{
    state.hotkey = Hotkey { ctrl, alt, shift, key_code };
    Ok(())
}

/// While sharing is off, every event passes and nothing is remembered of it.
pub proof fn law_disabled_is_transparent(s: KvmState, event: InputEvent)
    requires
        !s.enabled,
    ensures
        grabbed(s, event) == (Grabbed { next: s, pass: true, effect: Effect::Nothing }),
{
}

/// During a session no event reaches the local computer.
pub proof fn law_session_swallows(s: KvmState, event: InputEvent)
    requires
        s.enabled,
        s.active,
    ensures
        !grabbed(s, event).pass,
{
}

/// Outside a session every event but the hotkey reaches the local computer, and no
/// frame is sent.
pub proof fn law_idle_passes(s: KvmState, event: InputEvent)
    requires
        !s.active,
    ensures
        !is_hotkey(tracked_modifiers(s, event), event) ==> grabbed(s, event).pass,
        !(grabbed(s, event).effect is Send),
{
}

/// Ctrl + Alt + Escape always ends a session, whatever the hotkey is.
pub proof fn law_failsafe_releases(s: KvmState)
    requires
        s.enabled,
        s.active,
        s.ctrl_pressed,
        s.alt_pressed,
    ensures
        !grabbed(s, InputEvent::KeyPress(Key::Escape)).next.active,
        grabbed(s, InputEvent::KeyPress(Key::Escape)).effect == Effect::ReleaseByFailsafe,
{
}

/// An input event can end a session but never start one by itself; and where it ends
/// one, the cursor is freed.
pub proof fn law_release_frees_cursor(s: KvmState, event: InputEvent)
    ensures
        !s.active ==> !grabbed(s, event).next.active,
        s.active && !grabbed(s, event).next.active <==> (grabbed(s, event).effect
            == Effect::ReleaseByFailsafe || grabbed(s, event).effect == Effect::ReleaseByHotkey),
{
}

/// An attempt to connect is made only to the configured address, and only while no other
/// attempt is under way; from then on one is. Without an attempt the mark stays as it is.
/// An input event begins one only while sharing is on and outside a session.
pub proof fn law_one_attempt_at_a_time(s: KvmState, occasion: Occasion)
    ensures
        match attempt(s, occasion) {
            Some(ip) => {
                &&& ip == s.target_ip@ && ip.len() > 0
                &&& !s.is_connecting && after(s, occasion).is_connecting
                &&& occasion is Input ==> s.enabled && !s.active
            },
            None => after(s, occasion).is_connecting == s.is_connecting,
        },
{
}

/// However many events come and however often the user asks: until an attempt has ended,
/// there is no second one.
pub proof fn law_no_second_attempt(s: KvmState, occasions: Seq<Occasion>)
    ensures
        attempts(s, occasions) <= 1,
        s.is_connecting ==> attempts(s, occasions) == 0,
    decreases occasions.len(),
{
    if occasions.len() > 0 {
        law_one_attempt_at_a_time(s, occasions[0]);
        law_no_second_attempt(after(s, occasions[0]), occasions.skip(1));
    }
}

/// What an event never changes: the configuration.
pub proof fn law_configuration_kept(s: KvmState, event: InputEvent)
    ensures
        ({
            let t = grabbed(s, event).next;
            &&& t.enabled == s.enabled
            &&& t.target_ip == s.target_ip
            &&& t.hotkey == s.hotkey
            &&& t.border_x == s.border_x
            &&& t.border_direction == s.border_direction
            &&& t.screen_width == s.screen_width
            &&& t.screen_height == s.screen_height
        }),
{
}

/// Every frame that an event leads to is the frame of that event.
pub proof fn law_sends_the_event(s: KvmState, event: InputEvent)
    ensures
        grabbed(s, event).effect matches Effect::Send(bytes) ==> s.enabled && s.active && bytes
            == crate::frame::frame(event),
{
}

/// What is sent during a session makes the controlled computer repeat the event, for
/// every event that a frame can carry.
pub proof fn law_event_is_repeated(s: KvmState, event: InputEvent)
    requires
        crate::frame::is_carried(event),
    ensures
        grabbed(s, event).effect matches Effect::Send(bytes) ==> crate::frame::command(bytes)
            == crate::frame::repeated(event),
{
    crate::frame::law_frame_round_trip(event);
}

/// During a session every event is sent, but for the two combinations that end it and
/// for steps too small to count.
pub proof fn law_session_sends(s: KvmState, event: InputEvent)
    requires
        s.enabled,
        s.active,
        !is_failsafe(tracked_modifiers(s, event), event),
        !is_hotkey(tracked_modifiers(s, event), event),
        event matches InputEvent::MouseMove(p) ==> !p.still,
    ensures
        grabbed(s, event).effect == Effect::Send(crate::frame::frame(event)),
        grabbed(s, event).next.active,
{
}

/// The hotkey ends a session, and starts one where none is under way and an address is
/// configured; the local computer never sees it.
pub proof fn law_hotkey_toggles(s: KvmState, event: InputEvent)
    requires
        s.enabled,
        is_hotkey(tracked_modifiers(s, event), event),
    ensures
        !grabbed(s, event).pass,
        s.active ==> !grabbed(s, event).next.active,
        !s.active && may_connect(s) ==> grabbed(s, event).effect == Effect::ConnectByHotkey(
            s.target_ip@,
        ),
{
}

/// To end control twice is to end it once, and the second time there is no cursor to
/// free.
pub proof fn law_deactivation_idempotent(s: KvmState)
    ensures
        deactivated(deactivated(s)) == deactivated(s),
        !deactivated(s).active,
{
}

/// Whatever was held before, to press Ctrl, then Alt, then Escape ends a session.
pub proof fn law_failsafe_sequence(s: KvmState)
    requires
        s.enabled,
    ensures
        ({
            let s1 = grabbed(s, InputEvent::KeyPress(Key::ControlLeft)).next;
            let s2 = grabbed(s1, InputEvent::KeyPress(Key::Alt)).next;
            let s3 = grabbed(s2, InputEvent::KeyPress(Key::Escape)).next;
            !s3.active
        }),
{
}

/// The hotkey is the press of its key with exactly its modifiers, as they are held after
/// that press: only then is control taken or given back by it, and then the local
/// computer does not see it.
pub proof fn law_hotkey_needs_its_modifiers(s: KvmState, event: InputEvent)
    ensures
        ({
            let g = grabbed(s, event);
            let held = {
                &&& event matches InputEvent::KeyPress(key)
                &&& crate::keys::key_code(key) == s.hotkey.key_code
                &&& g.next.ctrl_pressed == s.hotkey.ctrl
                &&& g.next.alt_pressed == s.hotkey.alt
                &&& g.next.shift_pressed == s.hotkey.shift
            };
            &&& g.effect is ConnectByHotkey || g.effect is ReleaseByHotkey ==> s.enabled && held
            &&& s.enabled && held ==> !g.pass
            &&& s.enabled && held && s.active ==> !g.next.active && (g.effect is ReleaseByHotkey
                || g.effect is ReleaseByFailsafe)
            &&& s.enabled && held && !s.active && s.target_ip@.len() > 0 && !s.is_connecting
                ==> g.effect == Effect::ConnectByHotkey(s.target_ip@)
            &&& event is KeyPress && !s.active && !held ==> g.pass && g.effect is Nothing
            &&& event is KeyPress && s.enabled && s.active && !held && !(g.effect
                is ReleaseByFailsafe) ==> g.effect is Send
        }),
{
}

/// Which modifiers are held after an event, while sharing is on: each is held from the
/// press of one of its two keys to the release of one of them, and no other event changes
/// that.
pub proof fn law_modifiers(s: KvmState, event: InputEvent)
    requires
        s.enabled,
    ensures
        ({
            let t = grabbed(s, event).next;
            &&& t.ctrl_pressed == match event {
                InputEvent::KeyPress(Key::ControlLeft) => true,
                InputEvent::KeyPress(Key::ControlRight) => true,
                InputEvent::KeyRelease(Key::ControlLeft) => false,
                InputEvent::KeyRelease(Key::ControlRight) => false,
                _ => s.ctrl_pressed,
            }
            &&& t.alt_pressed == match event {
                InputEvent::KeyPress(Key::Alt) => true,
                InputEvent::KeyPress(Key::AltGr) => true,
                InputEvent::KeyRelease(Key::Alt) => false,
                InputEvent::KeyRelease(Key::AltGr) => false,
                _ => s.alt_pressed,
            }
            &&& t.shift_pressed == match event {
                InputEvent::KeyPress(Key::ShiftLeft) => true,
                InputEvent::KeyPress(Key::ShiftRight) => true,
                InputEvent::KeyRelease(Key::ShiftLeft) => false,
                InputEvent::KeyRelease(Key::ShiftRight) => false,
                _ => s.shift_pressed,
            }
        }),
{
}

/// Only Ctrl + Alt + Escape is the emergency combination, and only during a session; then
/// nothing is sent and the local computer does not see it.
pub proof fn law_failsafe_only(s: KvmState, event: InputEvent)
    ensures
        grabbed(s, event).effect is ReleaseByFailsafe <==> s.enabled && s.active && s.ctrl_pressed
            && s.alt_pressed && event == InputEvent::KeyPress(Key::Escape),
        grabbed(s, event).effect is ReleaseByFailsafe ==> !grabbed(s, event).pass && !grabbed(
            s,
            event,
        ).next.active,
{
}

/// A session is started at the border just where the pointer stands at the edge towards
/// the other screen, outside a session, with an address and with no attempt under way;
/// the movement itself passes.
pub proof fn law_border_only(s: KvmState, event: InputEvent)
    ensures
        grabbed(s, event).effect is ConnectByBorder <==> {
            &&& s.enabled && !s.active && !s.is_connecting && s.target_ip@.len() > 0
            &&& event matches InputEvent::MouseMove(p)
            &&& (s.border_direction == 1 && p.at_right) || (s.border_direction != 1 && p.at_left)
        },
        grabbed(s, event).effect is ConnectByBorder ==> grabbed(s, event).pass && grabbed(
            s,
            event,
        ).effect == Effect::ConnectByBorder(s.target_ip@),
{
}

/// What reaches the local computer: everything while sharing is off; outside a session
/// everything but key presses, and of these all that have another code than the hotkey;
/// during a session nothing.
pub proof fn law_what_passes(s: KvmState, event: InputEvent)
    ensures
        !s.enabled ==> grabbed(s, event).pass,
        !s.active && !(event is KeyPress) ==> grabbed(s, event).pass,
        !s.active && (event matches InputEvent::KeyPress(key) && crate::keys::key_code(key)
            != s.hotkey.key_code) ==> grabbed(s, event).pass,
        s.enabled && s.active ==> !grabbed(s, event).pass,
{
}

/// During a session everything but key presses is sent, as the frame of the event, except
/// steps of the pointer that are too small to count; and the position of the pointer is
/// recorded at every step, then and only then.
pub proof fn law_session_follows_the_pointer(s: KvmState, event: InputEvent)
    ensures
        ({
            let g = grabbed(s, event);
            &&& s.enabled && s.active && !(event is KeyPress) ==> (g.effect is Nothing <==> (event
                matches InputEvent::MouseMove(p) && p.still))
            &&& s.enabled && s.active && !(event is KeyPress) && !(g.effect is Nothing) ==> g.effect
                == Effect::Send(crate::frame::frame(event)) && g.next.active
            &&& match event {
                InputEvent::MouseMove(p) => if s.enabled && s.active {
                    g.next.last_x == p.x && g.next.last_y == p.y
                } else {
                    g.next.last_x == s.last_x && g.next.last_y == s.last_y
                },
                _ => g.next.last_x == s.last_x && g.next.last_y == s.last_y,
            }
        }),
{
}

/// The end of control changes nothing else.
pub proof fn law_end_of_control_changes_nothing_else(s: KvmState)
    ensures
        ({
            let t = deactivated(s);
            &&& !t.active
            &&& t.enabled == s.enabled && t.is_connecting == s.is_connecting
            &&& t.ctrl_pressed == s.ctrl_pressed && t.alt_pressed == s.alt_pressed
            &&& t.shift_pressed == s.shift_pressed
            &&& t.border_x == s.border_x && t.border_direction == s.border_direction
            &&& t.screen_width == s.screen_width && t.screen_height == s.screen_height
            &&& t.last_x == s.last_x && t.last_y == s.last_y
            &&& t.hotkey == s.hotkey && t.target_ip == s.target_ip
        }),
{
}

/// A session that is asked for by hand is begun just where the system permits it, an
/// address is configured and no attempt is under way; nothing else changes.
pub proof fn law_session_by_hand(s: KvmState, accessible: bool)
    ensures
        ({
            let t = triggered(s, accessible);
            &&& t.answer is Ok <==> accessible && s.target_ip@.len() > 0 && !s.is_connecting
            &&& t.answer is Ok ==> t.answer == Ok::<Seq<char>, Seq<char>>(s.target_ip@) && t.next
                == (KvmState { is_connecting: true, ..s })
            &&& t.answer is Err ==> t.next == s
            &&& !accessible ==> t.answer == Err::<Seq<char>, Seq<char>>(
                "accessibility_not_granted"@,
            )
            &&& accessible && s.target_ip@.len() == 0 ==> t.answer == Err::<Seq<char>, Seq<char>>(
                "no_target_ip_configured"@,
            )
            &&& accessible && s.target_ip@.len() > 0 && s.is_connecting ==> t.answer == Err::<
                Seq<char>,
                Seq<char>,
            >("already_connecting"@)
        }),
{
}

/// The middle of a screen length leaves as many pixels on one side as on the other, up to
/// one, as far as it can be held.
pub proof fn law_middle(length: u64)
    ensures
        length <= 0xffff_ffff ==> 2 * middle(length) <= length < 2 * middle(length) + 2,
        length > 0xffff_ffff ==> middle(length) == 0x7fff_ffff,
{
}

/// An action is seen as what it is.
pub proof fn law_grab_action(action: GrabAction)
    ensures
        match action {
            GrabAction::Nothing => action@ is Nothing,
            GrabAction::ReleaseByFailsafe => action@ is ReleaseByFailsafe,
            GrabAction::ReleaseByHotkey => action@ is ReleaseByHotkey,
            GrabAction::ConnectByHotkey(ip) => action@ == Effect::ConnectByHotkey(ip@),
            GrabAction::ConnectByBorder(ip) => action@ == Effect::ConnectByBorder(ip@),
            GrabAction::Send(bytes) => action@ == Effect::Send(bytes@),
        },
{
}

} // verus!
