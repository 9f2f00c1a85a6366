//! Devices that LEDs are sent to.

pub mod mqtt;
pub mod udp;

use crate::led::LED;
use vstd::prelude::*;

verus! {

/// The bytes sent for a frame: `r, g, b` of each LED in turn.
pub open spec fn spec_payload(frame: Seq<LED>) -> Seq<u8> {
    Seq::new(
        3 * frame.len(),
        |i: int|
            if i % 3 == 0 {
                frame[i / 3].r
            } else if i % 3 == 1 {
                frame[i / 3].g
            } else {
                frame[i / 3].b
            },
    )
}

/// Serialises a frame for the wire: three bytes per LED.
pub fn payload(frame: &Vec<LED>) -> (bytes: Vec<u8>)
    ensures
        bytes@ == spec_payload(frame@),
        bytes@.len() == 3 * frame@.len(),
{
    let mut bytes: Vec<u8> = Vec::new();
    let n = frame.len();
    let mut i: usize = 0;
    while i < n
        invariant
            n == frame@.len(),
            i <= n,
            bytes@ == spec_payload(frame@.subrange(0, i as int)),
        decreases n - i,
    {
        let led = frame[i];
        bytes.push(led.r);
        bytes.push(led.g);
        bytes.push(led.b);
        assert(bytes@ =~= spec_payload(frame@.subrange(0, i + 1)));
        i += 1;
    }
    assert(frame@.subrange(0, n as int) =~= frame@);
    bytes
}

/// What came out of a device's frame channel.
#[derive(Debug)]
pub enum FrameReceive {
    /// A frame.
    Frame(Vec<LED>),
    /// Nothing yet.
    Empty,
    /// The channel is closed.
    Closed,
    /// Frames were missed: how many.
    Lagged(u64),
}

/// What an output device does with what came out of its channel.
#[derive(Debug)]
pub enum OutputAction {
    /// Send these bytes.
    Send(Vec<u8>),
    /// Nothing to do.
    Idle,
    /// Report that the channel is closed.
    ReportClosed,
    /// Report that frames were missed: how many.
    ReportLagged(u64),
}

/// An action, apart from how it is stored.
pub enum OutputActionView {
    Send(Seq<u8>),
    Idle,
    ReportClosed,
    ReportLagged(u64),
}

impl View for OutputAction {
    type V = OutputActionView;

    open spec fn view(&self) -> OutputActionView {
        match self {
            OutputAction::Send(bytes) => OutputActionView::Send(bytes@),
            OutputAction::Idle => OutputActionView::Idle,
            OutputAction::ReportClosed => OutputActionView::ReportClosed,
            OutputAction::ReportLagged(n) => OutputActionView::ReportLagged(*n),
        }
    }
}

/// One round of an output device: a frame is serialised and sent, lag and
/// closure are reported, and nothing is done for nothing.
pub fn output_tick(received: &FrameReceive) -> (action: OutputAction)
    ensures
        action@ == match received {
            FrameReceive::Frame(frame) => OutputActionView::Send(spec_payload(frame@)),
            FrameReceive::Empty => OutputActionView::Idle,
            FrameReceive::Closed => OutputActionView::ReportClosed,
            FrameReceive::Lagged(n) => OutputActionView::ReportLagged(*n),
        },
{
    match received {
        FrameReceive::Frame(frame) => OutputAction::Send(payload(frame)),
        FrameReceive::Empty => OutputAction::Idle,
        FrameReceive::Closed => OutputAction::ReportClosed,
        FrameReceive::Lagged(n) => OutputAction::ReportLagged(*n),
    }
}

} // verus!
