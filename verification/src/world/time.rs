//! The world clock sent to clients.

use vstd::prelude::*;
use crate::protocol::packets::PacketOut;
use crate::protocol::wire::{be_bytes, varint_enc};
use crate::protocol::writer::Writer;

verus! {

/// The age of the world and the time of day, in ticks.
#[derive(Debug)]
pub struct TimeUpdate {
    pub world_age: i64,
    pub time_of_day: i64,
}

impl PacketOut for TimeUpdate {
    open spec fn encodable(&self) -> bool {
        true
    }

    open spec fn wire(&self) -> Seq<u8> {
        varint_enc(3) + be_bytes(self.world_age as int, 8) + be_bytes(self.time_of_day as int, 8)
    }

    fn encode(&self, writer: &mut Writer) -> (r: std::io::Result<()>) {
        writer.write_varint(0x03);
        writer.write_long(self.world_age);
        writer.write_long(self.time_of_day);
        assert(writer.data@ =~= old(writer).data@ + self.wire());
        Ok(())
    }
}

/// A day lasts 24000 ticks; a night can be slept through from tick 12542
/// to tick 23459 of it.
pub open spec fn can_sleep_at(time_of_day: i64) -> bool {
    12542 <= time_of_day <= 23459
}

/// What the world clock does on a tick: wake everybody and send the time
/// (after a night slept through), send the time (every 20 ticks), or
/// nothing.
#[derive(PartialEq, Eq, Structural, Clone, Copy, Debug)]
pub enum ClockAction {
    WakeAndSend,
    Send,
    Nothing,
}

/// `t` wrapped into a day as Rust's remainder does it: the sign of `t`
/// kept.
pub open spec fn day_wrapped(t: int) -> i64 {
    if t >= 0 {
        (t % 24000) as i64
    } else {
        (-((-t) % 24000)) as i64
    }
}

/// The clock after one tick, with `online` players of whom `sleeping`
/// are in bed: the world ages a tick; a night with everybody online in bed
/// ends at once, at time 0; otherwise the time of day moves on a tick,
/// wrapping at 24000, and is sent when the world's age is a multiple of
/// 20.
pub open spec fn clock_after(world_age: i64, time_of_day: i64, online: u64, sleeping: u64) -> (i64, i64, ClockAction) {
    let age = world_age + 1;
    if online > 0 && sleeping >= online && can_sleep_at(time_of_day) {
        (age as i64, 0, ClockAction::WakeAndSend)
    } else {
        (age as i64, day_wrapped(time_of_day + 1), if age % 20 == 0 {
            ClockAction::Send
        } else {
            ClockAction::Nothing
        })
    }
}

/// One tick of the world clock, as `clock_after` says.
pub fn world_clock_tick(world_age: i64, time_of_day: i64, online: u64, sleeping: u64) -> (r: (i64, i64, ClockAction))
    requires
        world_age < i64::MAX,
        time_of_day < i64::MAX,
    ensures
        r == clock_after(world_age, time_of_day, online, sleeping),
{
    let age = world_age + 1;
    if online > 0 && sleeping >= online && 12542 <= time_of_day && time_of_day <= 23459 {
        return (age, 0, ClockAction::WakeAndSend);
    }
    let next = (time_of_day + 1) % 24000;
    let send = match age.checked_rem_euclid(20) {
        Some(v) => v == 0,
        None => false,
    };
    (age, next, if send {
        ClockAction::Send
    } else {
        ClockAction::Nothing
    })
}

/// The time of day stays within a day, and the night ends early only when
/// every player online is in bed.
pub proof fn law_clock_stays_in_day(world_age: i64, time_of_day: i64, online: u64, sleeping: u64)
    requires
        world_age < i64::MAX,
        0 <= time_of_day < 24000,
    ensures
        0 <= clock_after(world_age, time_of_day, online, sleeping).1 < 24000,
        clock_after(world_age, time_of_day, online, sleeping).2 == ClockAction::WakeAndSend <==> (online > 0
            && sleeping >= online && can_sleep_at(time_of_day)),
        clock_after(world_age, time_of_day, online, sleeping).0 == world_age + 1,
{
}

} // verus!
