//! Frames: the tick counter and the time-keeper that advances it.

use crate::devices::manager::DeviceKind;
use crate::id::DeviceId;
use crate::table::Table;
use vstd::prelude::*;

verus! {

/// One tick of the engine. The frame interval is
/// `frame_numerator / frame_denominator` milliseconds, so the time elapsed at
/// a frame is `frame * frame_numerator / (frame_denominator * 1000)` seconds.
/// That quotient is kept exact, as a numerator and a denominator.
#[derive(Debug, Clone, Copy, PartialEq, Eq, Structural)]
pub struct FrameData {
    pub frame: u32,
    pub frame_numerator: u32,
    pub frame_denominator: u32,
    pub whole_seconds_elapsed: u32,
}

/// Whole seconds elapsed at `frame`: the floor of
/// `frame * numerator / (denominator * 1000)`, held at `u32::MAX` where it
/// would be larger. With a zero denominator the quotient is unbounded unless
/// its numerator is zero too, in which case it counts as zero.
pub open spec fn whole_seconds(frame: u32, numerator: u32, denominator: u32) -> u32 {
    if denominator == 0 {
        if frame * numerator == 0 {
            0
        } else {
            u32::MAX
        }
    } else if (frame * numerator) / (denominator * 1000) > u32::MAX {
        u32::MAX
    } else {
        ((frame * numerator) / (denominator * 1000)) as u32
    }
}

impl FrameData {
    /// The number of scalars that a frame occupies in its GPU buffer: frame,
    /// numerator, denominator, seconds elapsed and whole seconds elapsed.
    pub open spec fn spec_num_fields() -> usize {
        5
    }

    /// Numerator of the seconds elapsed.
    pub open spec fn spec_seconds_elapsed_numerator(self) -> int {
        self.frame * self.frame_numerator
    }

    /// Denominator of the seconds elapsed.
    pub open spec fn spec_seconds_elapsed_denominator(self) -> int {
        self.frame_denominator * 1000
    }

    /// The data of frame number `frame` at the given frame interval.
    pub fn new(frame: u32, frame_numerator: u32, frame_denominator: u32) -> (data: FrameData)
        ensures
            data.frame == frame,
            data.frame_numerator == frame_numerator,
            data.frame_denominator == frame_denominator,
            data.whole_seconds_elapsed == whole_seconds(frame, frame_numerator, frame_denominator),
    {
        assert(frame * frame_numerator <= 0xffff_ffff * 0xffff_ffff) by (nonlinear_arith)
            requires
                frame <= 0xffff_ffff,
                frame_numerator <= 0xffff_ffff,
        ;
        let elapsed: u64 = (frame as u64) * (frame_numerator as u64);
        let whole_seconds_elapsed: u32 = if frame_denominator == 0 {
            if elapsed == 0 {
                0
            } else {
                u32::MAX
            }
        } else {
            let seconds: u64 = elapsed / ((frame_denominator as u64) * 1000);
            if seconds > 0xffff_ffff {
                u32::MAX
            } else {
                seconds as u32
            }
        };
        FrameData { frame, frame_numerator, frame_denominator, whole_seconds_elapsed }
    }

    /// The number of scalars that a frame occupies in its GPU buffer.
    pub fn num_fields() -> (n: usize)
        ensures
            n == Self::spec_num_fields(),
    {
        5
    }

    /// Numerator of the seconds elapsed: `frame * frame_numerator`.
    pub fn seconds_elapsed_numerator(&self) -> (n: u64)
        ensures
            n == self.spec_seconds_elapsed_numerator(),
    {
        assert(self.frame * self.frame_numerator <= 0xffff_ffff * 0xffff_ffff) by (nonlinear_arith)
            requires
                self.frame <= 0xffff_ffff,
                self.frame_numerator <= 0xffff_ffff,
        ;
        (self.frame as u64) * (self.frame_numerator as u64)
    }

    /// Denominator of the seconds elapsed: `frame_denominator * 1000`.
    pub fn seconds_elapsed_denominator(&self) -> (n: u64)
        ensures
            n == self.spec_seconds_elapsed_denominator(),
    {
        (self.frame_denominator as u64) * 1000
    }
}

/// `a + b`, held at `u128::MAX` where it is larger.
pub open spec fn capped_sum(a: u128, b: u128) -> u128 {
    if a + b > u128::MAX {
        u128::MAX
    } else {
        (a + b) as u128
    }
}

/// `a * b`, held at `u128::MAX` where it is larger.
pub open spec fn capped_product(a: u128, b: u128) -> u128 {
    if a * b > u128::MAX {
        u128::MAX
    } else {
        (a * b) as u128
    }
}

/// `a - b`, held at zero where `b` is larger.
pub open spec fn floored_difference(a: u128, b: u128) -> u128 {
    if b > a {
        0
    } else {
        (a - b) as u128
    }
}

/// `a + b`, held at `u128::MAX` where it is larger.
pub fn add_capped(a: u128, b: u128) -> (sum: u128)
    ensures
        sum == capped_sum(a, b),
{
    if a > u128::MAX - b {
        u128::MAX
    } else {
        a + b
    }
}

/// `a * b`, held at `u128::MAX` where it is larger.
pub fn multiply_capped(a: u128, b: u128) -> (product: u128)
    ensures
        product == capped_product(a, b),
{
    if b == 0 {
        assert(a * b == 0) by (nonlinear_arith)
            requires
                b == 0,
        ;
        0
    } else if a > u128::MAX / b {
        assert(a * b > u128::MAX) by (nonlinear_arith)
            requires
                b > 0,
                a > u128::MAX / b,
        ;
        u128::MAX
    } else {
        assert(a * b <= u128::MAX) by (nonlinear_arith)
            requires
                b > 0,
                a <= u128::MAX / b,
        ;
        a * b
    }
}

/// The lateness that has piled up after a tick that came `elapsed`
/// milliseconds after the one before, when `late` had piled up before.
/// Lateness is counted in units of `1 / denominator` milliseconds, in which
/// the frame interval is `numerator`: a tick that took longer than the
/// interval adds what it took too long, one that took less takes off what
/// it saved, down to zero.
pub open spec fn lateness_after(late: u128, elapsed: u128, numerator: u32, denominator: u32) -> u128 {
    let taken = capped_product(elapsed, denominator as u128);
    if taken > numerator {
        capped_sum(late, (taken - numerator) as u128)
    } else {
        floored_difference(late, (numerator - taken) as u128)
    }
}

/// Which frame a sink is told, and whether telling it may wait.
#[derive(Debug, Clone, Copy, PartialEq, Eq, Structural)]
pub enum FrameSink {
    /// The current frame, through a mailbox that holds the sender back.
    CurrentBlocking,
    /// The current frame, as a broadcast that may be missed.
    CurrentNonBlocking,
    /// The coming frame, through a mailbox that holds the sender back.
    NextBlocking,
    /// The coming frame, as a broadcast that may be missed.
    NextNonBlocking,
}

/// What a tick decided.
#[derive(Debug, Clone, Copy, PartialEq, Eq, Structural)]
pub struct Tick {
    /// The frame that starts now, for the current-frame sinks.
    pub frame_data: FrameData,
    /// The frame after it, for the next-frame sinks.
    pub next_frame_data: FrameData,
    /// Whether to warn that the engine runs late: the lateness piled up has
    /// just reached the budget.
    pub running_late: bool,
    /// The lateness piled up, in whole milliseconds.
    pub late_by_ms: u128,
}

/// The time-keeper: counts frames and keeps account of lateness.
#[derive(Debug)]
pub struct FrameTimeKeeper {
    frame_numerator: u32,
    frame_denominator: u32,
    frame_buffer_size: u128,
    frame_data: FrameData,
    next_frame_data: FrameData,
    late_time: u128,
    warned: bool,
    frame_data_blocking_senders: Table<bool>,
    frame_data_non_blocking_senders: Table<bool>,
    next_frame_data_blocking_senders: Table<bool>,
    next_frame_data_non_blocking_senders: Table<bool>,
}

impl FrameTimeKeeper {
    /// The number of the current frame.
    pub closed spec fn spec_frame(&self) -> u32 {
        self.frame_data.frame
    }

    /// Numerator of the frame interval in milliseconds.
    pub closed spec fn spec_numerator(&self) -> u32 {
        self.frame_numerator
    }

    /// Denominator of the frame interval in milliseconds.
    pub closed spec fn spec_denominator(&self) -> u32 {
        self.frame_denominator
    }

    /// How many frame intervals of lateness are let pass before a warning.
    pub closed spec fn spec_buffer_size(&self) -> u128 {
        self.frame_buffer_size
    }

    /// The lateness piled up, in units of `1 / denominator` milliseconds.
    pub closed spec fn spec_late(&self) -> u128 {
        self.late_time
    }

    /// Whether the lateness piled up had reached the budget at the last
    /// tick.
    pub closed spec fn spec_warned(&self) -> bool {
        self.warned
    }

    /// The names of the sinks of a kind, in the order they registered.
    pub closed spec fn sinks(&self, kind: FrameSink) -> Table<bool> {
        match kind {
            FrameSink::CurrentBlocking => self.frame_data_blocking_senders,
            FrameSink::CurrentNonBlocking => self.frame_data_non_blocking_senders,
            FrameSink::NextBlocking => self.next_frame_data_blocking_senders,
            FrameSink::NextNonBlocking => self.next_frame_data_non_blocking_senders,
        }
    }

    /// The lateness budget, in units of `1 / denominator` milliseconds: the
    /// frame interval times the buffer size.
    pub open spec fn spec_budget(&self) -> u128 {
        capped_product(self.spec_numerator() as u128, self.spec_buffer_size())
    }

    /// The frames held are the current one and the one after it, at the
    /// keeper's frame interval, and the sink tables are well formed.
    pub closed spec fn wf(&self) -> bool {
        &&& self.frame_data.frame < u32::MAX
        &&& self.frame_data == (FrameData {
            frame: self.frame_data.frame,
            frame_numerator: self.frame_numerator,
            frame_denominator: self.frame_denominator,
            whole_seconds_elapsed: whole_seconds(
                self.frame_data.frame,
                self.frame_numerator,
                self.frame_denominator,
            ),
        })
        &&& self.next_frame_data == (FrameData {
            frame: (self.frame_data.frame + 1) as u32,
            frame_numerator: self.frame_numerator,
            frame_denominator: self.frame_denominator,
            whole_seconds_elapsed: whole_seconds(
                (self.frame_data.frame + 1) as u32,
                self.frame_numerator,
                self.frame_denominator,
            ),
        })
        &&& self.frame_data_blocking_senders.wf()
        &&& self.frame_data_non_blocking_senders.wf()
        &&& self.next_frame_data_blocking_senders.wf()
        &&& self.next_frame_data_non_blocking_senders.wf()
    }

    /// A keeper at frame 0 with no lateness and no sinks, for frames of
    /// `frame_numerator / frame_denominator` milliseconds and a lateness
    /// budget of `frame_buffer_size` frame intervals.
    pub fn new(frame_numerator: u32, frame_denominator: u32, frame_buffer_size: u128) -> (keeper:
        FrameTimeKeeper)
        ensures
            keeper.wf(),
            keeper.spec_frame() == 0,
            keeper.spec_numerator() == frame_numerator,
            keeper.spec_denominator() == frame_denominator,
            keeper.spec_buffer_size() == frame_buffer_size,
            keeper.spec_late() == 0,
            !keeper.spec_warned(),
    {
        FrameTimeKeeper {
            frame_numerator,
            frame_denominator,
            frame_buffer_size,
            frame_data: FrameData::new(0, frame_numerator, frame_denominator),
            next_frame_data: FrameData::new(1, frame_numerator, frame_denominator),
            late_time: 0,
            warned: false,
            frame_data_blocking_senders: Table::new(),
            frame_data_non_blocking_senders: Table::new(),
            next_frame_data_blocking_senders: Table::new(),
            next_frame_data_non_blocking_senders: Table::new(),
        }
    }

    /// The number of the current frame.
    pub fn frame(&self) -> (frame: u32)
        ensures
            frame == self.spec_frame(),
    {
        self.frame_data.frame
    }

    /// The lateness piled up, in whole milliseconds; zero where the frame
    /// interval has a zero denominator.
    pub fn cumulative_lateness_ms(&self) -> (late: u128)
        ensures
            self.spec_denominator() != 0 ==> late == self.spec_late() / (
            self.spec_denominator() as u128),
            self.spec_denominator() == 0 ==> late == 0,
    {
        if self.frame_denominator == 0 {
            0
        } else {
            self.late_time / (self.frame_denominator as u128)
        }
    }

    /// One tick, `elapsed_ms` milliseconds after the one before. The frame
    /// counter moves on by one and the account of lateness is brought up to
    /// date. `None`, with nothing changed, where the frame counter has
    /// reached the last number it can hold.
    pub fn tick(&mut self, elapsed_ms: u128) -> (tick: Option<Tick>)
        requires
            old(self).wf(),
        ensures
            final(self).wf(),
            final(self).spec_numerator() == old(self).spec_numerator(),
            final(self).spec_denominator() == old(self).spec_denominator(),
            final(self).spec_buffer_size() == old(self).spec_buffer_size(),
            forall|kind: FrameSink| final(self).sinks(kind) == old(self).sinks(kind),
            tick is None <==> old(self).spec_frame() >= u32::MAX - 1,
            tick is None ==> *final(self) == *old(self),
            tick matches Some(t) ==> {
                &&& final(self).spec_frame() == old(self).spec_frame() + 1
                &&& t.frame_data == FrameData {
                    frame: final(self).spec_frame(),
                    frame_numerator: old(self).spec_numerator(),
                    frame_denominator: old(self).spec_denominator(),
                    whole_seconds_elapsed: whole_seconds(
                        final(self).spec_frame(),
                        old(self).spec_numerator(),
                        old(self).spec_denominator(),
                    ),
                }
                &&& t.next_frame_data == FrameData {
                    frame: (final(self).spec_frame() + 1) as u32,
                    frame_numerator: old(self).spec_numerator(),
                    frame_denominator: old(self).spec_denominator(),
                    whole_seconds_elapsed: whole_seconds(
                        (final(self).spec_frame() + 1) as u32,
                        old(self).spec_numerator(),
                        old(self).spec_denominator(),
                    ),
                }
                &&& final(self).spec_late() == lateness_after(
                    old(self).spec_late(),
                    elapsed_ms,
                    old(self).spec_numerator(),
                    old(self).spec_denominator(),
                )
                &&& final(self).spec_warned() == (final(self).spec_late() >= old(self).spec_budget())
                &&& t.running_late == (final(self).spec_warned() && !old(self).spec_warned())
                &&& old(self).spec_denominator() != 0 ==> t.late_by_ms == final(self).spec_late()
                    / (old(self).spec_denominator() as u128)
                &&& old(self).spec_denominator() == 0 ==> t.late_by_ms == 0
            },
    {
        if self.frame_data.frame >= u32::MAX - 1 {
            return None;
        }
        let target: u128 = self.frame_numerator as u128;
        let taken = multiply_capped(elapsed_ms, self.frame_denominator as u128);
        if taken > target {
            self.late_time = add_capped(self.late_time, taken - target);
        } else {
            let saved = target - taken;
            self.late_time = if saved > self.late_time {
                0
            } else {
                self.late_time - saved
            };
        }
        let budget = multiply_capped(target, self.frame_buffer_size);
        let late = self.late_time >= budget;
        let running_late = late && !self.warned;
        self.warned = late;
        self.frame_data = self.next_frame_data;
        self.next_frame_data = FrameData::new(
            self.frame_data.frame + 1,
            self.frame_numerator,
            self.frame_denominator,
        );
        Some(
            Tick {
                frame_data: self.frame_data,
                next_frame_data: self.next_frame_data,
                running_late,
                late_by_ms: self.cumulative_lateness_ms(),
            },
        )
    }

    /// Registers the sink `receiver_id` for a kind of frame data.
    pub fn register(&mut self, kind: FrameSink, receiver_id: String)
        requires
            old(self).wf(),
        ensures
            final(self).wf(),
            final(self).spec_frame() == old(self).spec_frame(),
            final(self).spec_numerator() == old(self).spec_numerator(),
            final(self).spec_denominator() == old(self).spec_denominator(),
            final(self).spec_buffer_size() == old(self).spec_buffer_size(),
            final(self).spec_late() == old(self).spec_late(),
            final(self).spec_warned() == old(self).spec_warned(),
            old(self).sinks(kind).stored(&final(self).sinks(kind), receiver_id@),
            forall|other: FrameSink| other != kind ==> final(self).sinks(other) == old(self).sinks(other),
    {
        match kind {
            FrameSink::CurrentBlocking => self.frame_data_blocking_senders.insert(
                receiver_id,
                true,
            ),
            FrameSink::CurrentNonBlocking => self.frame_data_non_blocking_senders.insert(
                receiver_id,
                true,
            ),
            FrameSink::NextBlocking => self.next_frame_data_blocking_senders.insert(
                receiver_id,
                true,
            ),
            FrameSink::NextNonBlocking => self.next_frame_data_non_blocking_senders.insert(
                receiver_id,
                true,
            ),
        }
    }

    /// Registers `receiver_id` for the current frame, through a mailbox
    /// that holds the sender back.
    pub fn send_frame_data_to_blocking(&mut self, receiver_id: String)
        requires
            old(self).wf(),
        ensures
            final(self).wf(),
            old(self).sinks(FrameSink::CurrentBlocking).stored(
                &final(self).sinks(FrameSink::CurrentBlocking),
                receiver_id@,
            ),
    {
        self.register(FrameSink::CurrentBlocking, receiver_id)
    }

    /// Registers `receiver_id` for the current frame, as a broadcast.
    pub fn send_frame_data_to_non_blocking(&mut self, receiver_id: String)
        requires
            old(self).wf(),
        ensures
            final(self).wf(),
            old(self).sinks(FrameSink::CurrentNonBlocking).stored(
                &final(self).sinks(FrameSink::CurrentNonBlocking),
                receiver_id@,
            ),
    {
        self.register(FrameSink::CurrentNonBlocking, receiver_id)
    }

    /// Registers `receiver_id` for the coming frame, through a mailbox that
    /// holds the sender back.
    pub fn send_next_frame_data_to_blocking(&mut self, receiver_id: String)
        requires
            old(self).wf(),
        ensures
            final(self).wf(),
            old(self).sinks(FrameSink::NextBlocking).stored(
                &final(self).sinks(FrameSink::NextBlocking),
                receiver_id@,
            ),
    {
        self.register(FrameSink::NextBlocking, receiver_id)
    }

    /// Registers `receiver_id` for the coming frame, as a broadcast.
    pub fn send_next_frame_data_to_non_blocking(&mut self, receiver_id: String)
        requires
            old(self).wf(),
        ensures
            final(self).wf(),
            old(self).sinks(FrameSink::NextNonBlocking).stored(
                &final(self).sinks(FrameSink::NextNonBlocking),
                receiver_id@,
            ),
    {
        self.register(FrameSink::NextNonBlocking, receiver_id)
    }

    /// A device was added: an auxiliary data device is told the coming
    /// frame, as a broadcast under its own name, so that it can prepare its
    /// data; any other device is told nothing. Says whether the device was
    /// registered.
    pub fn on_device_added(&mut self, device_id: &DeviceId, kind: DeviceKind) -> (registered: bool)
        requires
            old(self).wf(),
        ensures
            final(self).wf(),
            final(self).spec_frame() == old(self).spec_frame(),
            final(self).spec_late() == old(self).spec_late(),
            registered == (kind == DeviceKind::AuxiliaryData),
            registered ==> old(self).sinks(FrameSink::NextNonBlocking).stored(
                &final(self).sinks(FrameSink::NextNonBlocking),
                device_id@,
            ),
            !registered ==> final(self).sinks(FrameSink::NextNonBlocking) == old(self).sinks(
                FrameSink::NextNonBlocking,
            ),
    {
        match kind {
            DeviceKind::LEDDataOutput => false,
            DeviceKind::AuxiliaryData => {
                self.register(FrameSink::NextNonBlocking, device_id.unprotect());
                true
            },
        }
    }

    /// A device was removed: it is told no frame any more.
    pub fn on_device_removed(&mut self, device_id: &DeviceId)
        requires
            old(self).wf(),
        ensures
            final(self).wf(),
            final(self).spec_frame() == old(self).spec_frame(),
            final(self).spec_late() == old(self).spec_late(),
            old(self).sinks(FrameSink::NextNonBlocking).dropped(
                &final(self).sinks(FrameSink::NextNonBlocking),
                device_id@,
            ),
    {
        let _gone = self.next_frame_data_non_blocking_senders.remove(device_id.key());
    }

    /// The names of the sinks of a kind, in the order they registered.
    pub fn sink_names(&self, kind: FrameSink) -> (names: Vec<String>)
        requires
            self.wf(),
        ensures
            crate::table::text_views(names@) == self.sinks(kind).keys(),
    {
        match kind {
            FrameSink::CurrentBlocking => crate::pipeline::reconcile::all_keys(
                &self.frame_data_blocking_senders,
            ),
            FrameSink::CurrentNonBlocking => crate::pipeline::reconcile::all_keys(
                &self.frame_data_non_blocking_senders,
            ),
            FrameSink::NextBlocking => crate::pipeline::reconcile::all_keys(
                &self.next_frame_data_blocking_senders,
            ),
            FrameSink::NextNonBlocking => crate::pipeline::reconcile::all_keys(
                &self.next_frame_data_non_blocking_senders,
            ),
        }
    }
}

} // verus!
