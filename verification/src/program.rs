//! The program (instrument) timeline: for each MIDI channel, the ordered
//! `(timestamp, program)` pairs taken from ProgramChange events, and the
//! query returning the program active at a given time.

use vstd::prelude::*;

use crate::events::{MidiEvent, MidiMessage};

verus! {

/// Number of MIDI channels.
pub const CHANNEL_COUNT: usize = 16;

/// The `(timestamp, program)` pairs of channel `ch` among `events`, in
/// event order.
pub open spec fn channel_programs(events: Seq<MidiEvent>, ch: int) -> Seq<(u64, u8)>
    decreases events.len(),
{
    if events.len() == 0 {
        Seq::empty()
    } else {
        let init = channel_programs(events.drop_last(), ch);
        match events.last().message {
            MidiMessage::ProgramChange { program } => if events.last().channel == ch {
                init.push((events.last().timestamp_us, program))
            } else {
                init
            },
            _ => init,
        }
    }
}

/// The last entry whose timestamp does not exceed `t`, if any.
pub open spec fn last_program(entries: Seq<(u64, u8)>, t: u64) -> Option<u8>
    decreases entries.len(),
{
    if entries.len() == 0 {
        None
    } else if entries.last().0 <= t {
        Some(entries.last().1)
    } else {
        last_program(entries.drop_last(), t)
    }
}

/// The `(channel, program)` pairs active at time `t` among the channels
/// below `upto`.
pub open spec fn programs_at(channels: Seq<Vec<(u64, u8)>>, upto: int, t: u64) -> Seq<(u8, u8)>
    decreases upto,
{
    if upto <= 0 {
        Seq::empty()
    } else {
        programs_at(channels, upto - 1, t) + match last_program(channels[upto - 1]@, t) {
            Some(p) => seq![((upto - 1) as u8, p)],
            None => Seq::empty(),
        }
    }
}

/// Per-channel program timeline derived from the merged track's
/// ProgramChange events.
#[derive(Debug)]
pub struct ProgramTrack {
    pub channels: Vec<Vec<(u64, u8)>>,
}

/// Mutable access to one channel's entry list.
fn channel_mut(channels: &mut Vec<Vec<(u64, u8)>>, i: usize) -> (element: &mut Vec<(u64, u8)>)
    requires
        i < old(channels)@.len(),
    ensures
        *element == old(channels)@[i as int],
        final(channels)@ == old(channels)@.update(i as int, *final(element)),
{
    &mut channels[i]
}

/// Find the last entry at or before `t`, scanning from the end.
fn last_program_exec(entries: &Vec<(u64, u8)>, t: u64) -> (r: Option<u8>)
    ensures
        r == last_program(entries@, t),
{
    let mut j: usize = entries.len();
    proof {
        assert(entries@.take(entries@.len() as int) =~= entries@);
    }
    while j > 0
        invariant
            j <= entries@.len(),
            last_program(entries@, t) == last_program(entries@.take(j as int), t),
        decreases j,
    {
        proof {
            assert(entries@.take(j as int).last() == entries@[j - 1]);
            assert(entries@.take(j as int).drop_last() =~= entries@.take(j - 1));
        }
        if entries[j - 1].0 <= t {
            return Some(entries[j - 1].1);
        }
        j = j - 1;
    }
    proof {
        assert(entries@.take(0) =~= Seq::<(u64, u8)>::empty());
    }
    None
}

impl ProgramTrack {
    /// One entry list per channel.
    pub open spec fn wf(&self) -> bool {
        self.channels@.len() == CHANNEL_COUNT
    }

    /// Build the timeline from the merged track's events.
    pub fn new(events: &Vec<MidiEvent>) -> (r: ProgramTrack)
        ensures
            r.wf(),
            forall|ch: int|
                0 <= ch < CHANNEL_COUNT ==> (#[trigger] r.channels@[ch])@ == channel_programs(
                    events@,
                    ch,
                ),
    {
        let mut channels: Vec<Vec<(u64, u8)>> = Vec::new();
        let mut c: usize = 0;
        while c < CHANNEL_COUNT
            invariant
                c <= CHANNEL_COUNT,
                channels@.len() == c,
                forall|ch: int| 0 <= ch < c ==> (#[trigger] channels@[ch])@ == Seq::<(u64, u8)>::empty(),
            decreases CHANNEL_COUNT - c,
        {
            channels.push(Vec::new());
            c = c + 1;
        }
        proof {
            assert(forall|ch: int|
                0 <= ch < CHANNEL_COUNT ==> (#[trigger] channels@[ch])@ == channel_programs(
                    events@.take(0),
                    ch,
                ));
        }
        let mut i: usize = 0;
        while i < events.len()
            invariant
                i <= events@.len(),
                channels@.len() == CHANNEL_COUNT,
                forall|ch: int|
                    0 <= ch < CHANNEL_COUNT ==> (#[trigger] channels@[ch])@ == channel_programs(
                        events@.take(i as int),
                        ch,
                    ),
            decreases events@.len() - i,
        {
            proof {
                assert(events@.take(i + 1).drop_last() =~= events@.take(i as int));
                assert(events@.take(i + 1).last() == events@[i as int]);
            }
            let e = events[i];
            match e.message {
                MidiMessage::ProgramChange { program } => {
                    if e.channel < 16 {
                        let slot = channel_mut(&mut channels, e.channel as usize);
                        slot.push((e.timestamp_us, program));
                        proof {
                            assert forall|ch: int|
                                0 <= ch < CHANNEL_COUNT implies (#[trigger] channels@[ch])@
                                == channel_programs(events@.take(i + 1), ch) by {
                            }
                        }
                    }
                },
                _ => {},
            }
            i = i + 1;
        }
        proof {
            assert(events@.take(events@.len() as int) =~= events@);
        }
        ProgramTrack { channels }
    }

    /// The `(channel, program)` pairs active at `time_us`, for every channel
    /// that has seen a ProgramChange by then.
    pub fn program_for_timestamp(&self, time_us: u64) -> (r: Vec<(u8, u8)>)
        requires
            self.wf(),
        ensures
            r@ == programs_at(self.channels@, CHANNEL_COUNT as int, time_us),
    {
        let mut out: Vec<(u8, u8)> = Vec::new();
        let mut ch: usize = 0;
        while ch < CHANNEL_COUNT
            invariant
                self.wf(),
                ch <= CHANNEL_COUNT,
                out@ == programs_at(self.channels@, ch as int, time_us),
            decreases CHANNEL_COUNT - ch,
        {
            match last_program_exec(&self.channels[ch], time_us) {
                Some(p) => {
                    out.push((ch as u8, p));
                    proof {
                        assert(out@ =~= programs_at(self.channels@, ch + 1, time_us));
                    }
                },
                None => {
                    proof {
                        assert(out@ =~= programs_at(self.channels@, ch + 1, time_us));
                    }
                },
            }
            ch = ch + 1;
        }
        out
    }
}

} // verus!
