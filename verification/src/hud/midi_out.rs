//! Setting up an MPE receiver and finding its port.
use vstd::prelude::*;

use crate::midi::event::MidiEvent;
use crate::midi::mapping::MidiMapping;
use crate::text::{contains, occurs_in};

verus! {

/// The controller events that write a registered parameter on a channel: its
/// number, the value, and then no parameter, so that later values go nowhere.
pub open spec fn rpn(channel: u8, rpn_msb: u8, rpn_lsb: u8, data_msb: u8) -> Seq<MidiEvent> {
    seq![
        MidiEvent::ControlChange { channel, controller: 101, value: rpn_msb },
        MidiEvent::ControlChange { channel, controller: 100, value: rpn_lsb },
        MidiEvent::ControlChange { channel, controller: 6, value: data_msb },
        MidiEvent::ControlChange { channel, controller: 101, value: 127 },
        MidiEvent::ControlChange { channel, controller: 100, value: 127 },
    ]
}

/// The bend range written on each of the channels.
pub open spec fn bend_setup(channels: Seq<u8>, range: u8) -> Seq<MidiEvent>
    decreases channels.len(),
{
    if channels.len() == 0 {
        Seq::empty()
    } else {
        bend_setup(channels.drop_last(), range) + rpn(channels.last(), 0, 0, range)
    }
}

/// The bend range that is advertised: the nearest whole number of semitones
/// that the parameter can take.
pub open spec fn advertised_range(m: MidiMapping) -> int {
    m.mpe.pitch_bend_range_semitones.rounded_spec(96)
}

/// The events that put a receiver into MPE mode for the zone of a mapping: the
/// size of the zone on the master channel, then the bend range on each channel
/// of the zone.
pub open spec fn setup_events(m: MidiMapping) -> Seq<MidiEvent> {
    rpn(m.mpe.master_channel, 0, 6, m.mpe.zone().len() as u8) + bend_setup(
        m.mpe.zone(),
        advertised_range(m) as u8,
    )
}

/// Add the events that write a registered parameter.
pub fn push_rpn(out: &mut Vec<MidiEvent>, channel: u8, rpn_msb: u8, rpn_lsb: u8, data_msb: u8)
    ensures
        final(out)@ == old(out)@ + rpn(channel, rpn_msb, rpn_lsb, data_msb),
{
    out.push(MidiEvent::ControlChange { channel, controller: 101, value: rpn_msb });
    out.push(MidiEvent::ControlChange { channel, controller: 100, value: rpn_lsb });
    out.push(MidiEvent::ControlChange { channel, controller: 6, value: data_msb });
    out.push(MidiEvent::ControlChange { channel, controller: 101, value: 127 });
    out.push(MidiEvent::ControlChange { channel, controller: 100, value: 127 });
    proof {
        assert(out@ =~= old(out)@ + rpn(channel, rpn_msb, rpn_lsb, data_msb));
    }
}

/// The events that put a receiver into MPE mode.
pub fn mpe_init_events(m: &MidiMapping) -> (r: Vec<MidiEvent>)
    ensures
        r@ == setup_events(*m),
{
    let mut events: Vec<MidiEvent> = Vec::new();
    let bend_range: u8 = m.mpe.pitch_bend_range_semitones.rounded(96);
    push_rpn(&mut events, m.mpe.master_channel, 0x00, 0x06, m.mpe.zone_member_count());
    let ghost head = events@;
    let channels = m.mpe.zone_member_range();
    let mut i: usize = 0;
    proof {
        assert(channels@.take(0) =~= Seq::<u8>::empty());
        assert(head =~= rpn(m.mpe.master_channel, 0, 6, m.mpe.zone().len() as u8));
        assert(events@ =~= head + bend_setup(channels@.take(0), bend_range));
    }
    while i < channels.len()
        invariant
            i <= channels@.len(),
            events@ == head + bend_setup(channels@.take(i as int), bend_range),
        decreases channels@.len() - i,
    {
        push_rpn(&mut events, channels[i], 0x00, 0x00, bend_range);
        proof {
            let now = channels@.take(i + 1);
            assert(now.drop_last() =~= channels@.take(i as int));
            assert(now.last() == channels@[i as int]);
            assert(events@ =~= head + bend_setup(now, bend_range));
        }
        i = i + 1;
    }
    proof {
        assert(channels@.take(channels@.len() as int) =~= channels@);
    }
    events
}

/// Does the setup of channels hold a bend range for each of them?
proof fn lemma_bend_setup_covers(channels: Seq<u8>, range: u8, i: int)
    requires
        0 <= i < channels.len(),
    ensures
        bend_setup(channels, range).contains(
            MidiEvent::ControlChange { channel: channels[i], controller: 6, value: range },
        ),
    decreases channels.len(),
{
    let event = MidiEvent::ControlChange { channel: channels[i], controller: 6, value: range };
    let front = bend_setup(channels.drop_last(), range);
    let all = bend_setup(channels, range);
    if i == channels.len() - 1 {
        assert(rpn(channels.last(), 0, 0, range)[2] == event);
        assert(all[front.len() as int + 2] == event);
    } else {
        lemma_bend_setup_covers(channels.drop_last(), range, i);
        let k = choose|k: int| 0 <= k < front.len() && front[k] == event;
        assert(all[k] == event);
    }
}

/// Every channel that notes can go out on is given its bend range, provided
/// that the master lies beside the members: below them, as in a lower zone, or
/// above them, as in an upper one.
pub proof fn setup_covers_the_members(m: MidiMapping, channel: u8)
    requires
        m.valid(),
        m.mpe.master_channel < m.mpe.member_low || m.mpe.member_high < m.mpe.master_channel,
        m.mpe.member_low <= channel <= m.mpe.member_high,
    ensures
        m.mpe.zone().contains(channel),
        setup_events(m).contains(
            MidiEvent::ControlChange { channel, controller: 6, value: advertised_range(m) as u8 },
        ),
{
    let zone = m.mpe.zone();
    let i = if m.mpe.master_channel < m.mpe.member_low {
        channel - m.mpe.master_channel - 1
    } else {
        channel - m.mpe.member_low
    };
    assert(zone[i] == channel);
    let range = advertised_range(m) as u8;
    lemma_bend_setup_covers(zone, range, i);
    let head = rpn(m.mpe.master_channel, 0, 6, zone.len() as u8);
    let event = MidiEvent::ControlChange { channel, controller: 6, value: range };
    let k = choose|k: int| 0 <= k < bend_setup(zone, range).len() && bend_setup(zone, range)[k] == event;
    assert(setup_events(m)[head.len() as int + k] == event);
}

/// Does the name of some port contain `substring`?
pub open spec fn some_name_has(ports: Seq<String>, substring: Seq<char>) -> bool {
    exists|j: int| 0 <= j < ports.len() && occurs_in(#[trigger] ports[j]@, substring)
}

/// The first port whose name contains `substring`.
pub fn find_port_index_by_name(ports: &Vec<String>, substring: &str) -> (r: Option<usize>)
    ensures
        match r {
            Some(i) => i < ports@.len() && occurs_in(ports@[i as int]@, substring@) && forall|j: int|
                0 <= j < i ==> !occurs_in(#[trigger] ports@[j]@, substring@),
            None => forall|j: int| 0 <= j < ports@.len() ==> !occurs_in(#[trigger] ports@[j]@, substring@),
        },
        r is Some <==> some_name_has(ports@, substring@),
{
    let mut i: usize = 0;
    while i < ports.len()
        invariant
            i <= ports@.len(),
            forall|j: int| 0 <= j < i ==> !occurs_in(#[trigger] ports@[j]@, substring@),
        decreases ports@.len() - i,
    {
        if contains(ports[i].as_str(), substring) {
            return Some(i);
        }
        i = i + 1;
    }
    None
}

} // verus!
