//! A running session: what the controlling computer writes to the connection and reads
//! from it, and when the controlled one gives control back.

use crate::frame::{keepalive_packet, release_packet};
use crate::kvm::{deactivate_kvm_host, KvmState};
use vstd::prelude::*;

verus! {

/// After how many waits in a row without a frame a sign of life is sent. A wait lasts
/// a tenth of a second.
pub const IDLE_LIMIT: u32 = 10;

/// What a wait for the next frame ended with.
#[derive(Clone, Debug, PartialEq, Eq)]
pub enum ChannelEvent {
    Data(Vec<u8>),
    Timeout,
    Disconnected,
}

/// What the writing side does next.
#[derive(Clone, Debug, PartialEq, Eq)]
pub enum WriterAction {
    Write(Vec<u8>),
    Wait,
    Stop,
}

/// `WriterAction` over mathematical values.
pub enum WriterEffect {
    Write(Seq<u8>),
    Wait,
    Stop,
}

impl View for WriterAction {
    type V = WriterEffect;

    open spec fn view(&self) -> WriterEffect {
        match self {
            WriterAction::Write(bytes) => WriterEffect::Write(bytes@),
            WriterAction::Wait => WriterEffect::Wait,
            WriterAction::Stop => WriterEffect::Stop,
        }
    }
}

/// The writing side of the controlling computer. `idle_ticks` counts the waits since
/// the last frame.
#[derive(Clone, Debug, PartialEq, Eq)]
pub struct SessionWriter {
    pub idle_ticks: u32,
}

/// The count of waits after one more of them.
pub open spec fn ticked(idle_ticks: nat) -> nat {
    if idle_ticks + 1 >= IDLE_LIMIT {
        0
    } else {
        idle_ticks + 1
    }
}

/// The count after `n` waits in a row.
pub open spec fn ticks_after(idle_ticks: nat, n: nat) -> nat
    decreases n,
{
    if n == 0 {
        idle_ticks
    } else {
        ticked(ticks_after(idle_ticks, (n - 1) as nat))
    }
}

/// What the writing side does after a wait.
pub open spec fn writer_effect(idle_ticks: nat, event: ChannelEvent) -> WriterEffect {
    match event {
        ChannelEvent::Data(bytes) => WriterEffect::Write(bytes@),
        ChannelEvent::Timeout => if idle_ticks + 1 >= IDLE_LIMIT {
            WriterEffect::Write(crate::frame::keepalive_frame())
        } else {
            WriterEffect::Wait
        },
        ChannelEvent::Disconnected => WriterEffect::Stop,
    }
}

impl SessionWriter {
    /// Whether the count is below the limit.
    pub open spec fn wf(&self) -> bool {
        self.idle_ticks < IDLE_LIMIT
    }

    /// The writing side at the start of a session.
    pub fn new() -> (w: SessionWriter)
        ensures
            w.wf(),
            w.idle_ticks == 0,
    {
        SessionWriter { idle_ticks: 0 }
    }

    /// Decides what to do after a wait.
    pub fn step(&mut self, event: ChannelEvent) -> (action: WriterAction)
        requires
            old(self).wf(),
        ensures
            final(self).wf(),
            action@ == writer_effect(old(self).idle_ticks as nat, event),
            final(self).idle_ticks == match event {
                ChannelEvent::Data(_) => 0,
                ChannelEvent::Timeout => ticked(old(self).idle_ticks as nat),
                ChannelEvent::Disconnected => old(self).idle_ticks as nat,
            },
    {
        match event {
            ChannelEvent::Data(bytes) => {
                self.idle_ticks = 0;
                WriterAction::Write(bytes)
            },
            ChannelEvent::Timeout => {
                self.idle_ticks += 1;
                if self.idle_ticks >= IDLE_LIMIT {
                    self.idle_ticks = 0;
                    WriterAction::Write(keepalive_packet())
                } else {
                    WriterAction::Wait
                }
            },
            ChannelEvent::Disconnected => WriterAction::Stop,
        }
    }
}

/// What the controlling computer does after reading from the connection. `Stop` says
/// whether the cursor has to be freed.
#[derive(Clone, Copy, Debug, PartialEq, Eq, Structural)]
pub enum ReaderAction {
    Continue,
    Stop { released: bool },
}

/// Handles what was read: a frame, or nothing where the connection is lost. A request
/// to give control back ends the session, and so does the loss of the connection.
pub fn host_read(state: &mut KvmState, frame: Option<&[u8; 9]>) -> (action: ReaderAction)
    ensures
        frame matches Some(f) && f@[0] != 6 ==> action == ReaderAction::Continue && *final(state)
            == *old(state),
        frame is None || frame->0@[0] == 6 ==> action == (ReaderAction::Stop {
            released: old(state).active,
        }) && *final(state) == crate::kvm::deactivated(*old(state)),
{
    if let Some(f) = frame {
        if f[0] != 6 {
            return ReaderAction::Continue;
        }
    }
    ReaderAction::Stop { released: deactivate_kvm_host(state) }
}

/// Where the pointer of the controlled computer stands after a step, and which way it
/// went: within two pixels of an edge, to the left or to the right.
#[derive(Clone, Copy, Debug, PartialEq, Eq, Structural)]
pub struct ClientPointer {
    pub at_left: bool,
    pub at_right: bool,
    pub went_left: bool,
    pub went_right: bool,
}

/// Whether the pointer leaves the controlled screen towards the controlling one. That
/// one lies to the left where `direction` is 1, else to the right.
pub open spec fn leaves_screen(direction: u8, p: ClientPointer) -> bool {
    if direction == 1 {
        p.at_left && p.went_left
    } else {
        p.at_right && p.went_right
    }
}

/// Decides on a step of the pointer on the controlled computer: the frame to send
/// back, which ends the session, or nothing where the pointer follows the step.
pub fn client_move(direction: u8, p: &ClientPointer) -> (give_back: Option<Vec<u8>>)
    ensures
        give_back is Some <==> leaves_screen(direction, *p),
        give_back is Some <==> if direction == 1 {
            p.at_left && p.went_left
        } else {
            p.at_right && p.went_right
        },
        give_back matches Some(bytes) ==> bytes@ == crate::frame::release_frame(),
{
    let leaves = if direction == 1 {
        p.at_left && p.went_left
    } else {
        p.at_right && p.went_right
    };
    if leaves {
        Some(release_packet())
    } else {
        None
    }
}

/// Signs of life come at every tenth wait in a row, and only then.
pub proof fn law_keepalive_every_tenth_wait(n: nat)
    ensures
        ticks_after(0, n) == n % 10,
        writer_effect(ticks_after(0, n), ChannelEvent::Timeout) == (if (n + 1) % 10 == 0 {
            WriterEffect::Write(crate::frame::keepalive_frame())
        } else {
            WriterEffect::Wait
        }),
    decreases n,
{
    if n > 0 {
        law_keepalive_every_tenth_wait((n - 1) as nat);
    }
}

/// The frame with which the controlled computer gives control back makes the
/// controlling one stop; no event and no sign of life does.
pub proof fn law_only_release_stops(event: crate::frame::InputEvent)
    ensures
        crate::frame::release_frame()[0] == 6,
        crate::frame::frame(event)[0] != 6,
        crate::frame::keepalive_frame()[0] != 6,
{
}

/// Control is given back only at an edge: the pointer stands at the edge towards the
/// controlling screen and went towards it. There it is given back.
pub proof fn law_given_back_at_the_edge(direction: u8, p: ClientPointer)
    ensures
        leaves_screen(direction, p) && direction == 1 ==> p.at_left && p.went_left,
        leaves_screen(direction, p) && direction != 1 ==> p.at_right && p.went_right,
        !p.at_left && !p.at_right ==> !leaves_screen(direction, p),
        !p.went_left && !p.went_right ==> !leaves_screen(direction, p),
        direction == 1 && p.at_left && p.went_left ==> leaves_screen(direction, p),
        direction != 1 && p.at_right && p.went_right ==> leaves_screen(direction, p),
{
}

/// The other edge plays no part: what the pointer does there changes nothing.
pub proof fn law_far_edge_is_free(direction: u8, p: ClientPointer, q: ClientPointer)
    requires
        direction == 1 ==> p.at_left == q.at_left && p.went_left == q.went_left,
        direction != 1 ==> p.at_right == q.at_right && p.went_right == q.went_right,
    ensures
        leaves_screen(direction, p) == leaves_screen(direction, q),
{
}

/// Every frame that comes is written as it came, however long the wait was; where the
/// sender is gone, the writing side stops; and it stops for nothing else.
pub proof fn law_writer_passes_frames(idle_ticks: nat, event: ChannelEvent)
    ensures
        event matches ChannelEvent::Data(bytes) ==> writer_effect(idle_ticks, event)
            == WriterEffect::Write(bytes@),
        writer_effect(idle_ticks, event) is Stop <==> event is Disconnected,
        event is Timeout && writer_effect(idle_ticks, event) is Write ==> writer_effect(
            idle_ticks,
            event,
        ) == WriterEffect::Write(seq![7u8, 0, 0, 0, 0, 0, 0, 0, 0]),
{
    assert(crate::frame::keepalive_frame() == seq![7u8, 0, 0, 0, 0, 0, 0, 0, 0]);
}

/// An action is seen as what it is.
pub proof fn law_writer_action(action: WriterAction)
    ensures
        match action {
            WriterAction::Write(bytes) => action@ == WriterEffect::Write(bytes@),
            WriterAction::Wait => action@ is Wait,
            WriterAction::Stop => action@ is Stop,
        },
{
}

} // verus!
