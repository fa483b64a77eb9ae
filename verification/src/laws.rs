use vstd::prelude::*;

use crate::events::{
    EventIterator, lemma_next_props, spec_next, spec_read_meta, sysex_end,
};
use crate::reader::{
    spec_parse, spec_read_track, spec_read_tracks, spec_track_events,
};
use crate::types::{
    MidiError, MidiEvent, MidiMetaEventType,
};
use crate::vlq::{be32, vlq_end, vlq_value};

verus! {

/// Event times never decrease along a sequence.
pub open spec fn events_sorted(events: Seq<MidiEvent>) -> bool {
    forall|i: int, j: int|
        0 <= i <= j < events.len() ==> #[trigger] events[i].time <= #[trigger] events[j].time
}

/// A track decode yields events stamped at or after the starting time,
/// in non-decreasing time order: deltas are unsigned and the
/// accumulator saturates, so time never moves backwards.
pub proof fn lemma_track_events_sorted(bytes: Seq<u8>, st: EventIterator)
    requires
        spec_track_events(bytes, st) is Ok,
        bytes.len() <= usize::MAX,
    ensures
        events_sorted(spec_track_events(bytes, st)->Ok_0.0),
        forall|i: int|
            0 <= i < spec_track_events(bytes, st)->Ok_0.0.len() ==> #[trigger] spec_track_events(
                bytes,
                st,
            )->Ok_0.0[i].time >= st.time,
    decreases bytes.len() - st.pos,
{
    reveal(spec_track_events);
    if !(st.end_of_track || st.pos >= bytes.len()) {
        let (st2, ev) = spec_next(bytes, st)->Ok_0;
        lemma_next_props(bytes, st);
        lemma_track_events_sorted(bytes, st2);
        let tail = spec_track_events(bytes, st2)->Ok_0.0;
        let evs = spec_track_events(bytes, st)->Ok_0.0;
        match ev {
            Some(e0) => {
                assert(evs =~= seq![e0] + tail);
                assert forall|i: int| 0 <= i < evs.len() implies #[trigger] evs[i].time
                    >= st.time by {
                    if i > 0 {
                        assert(evs[i] == tail[i - 1]);
                    }
                }
                assert forall|i: int, j: int| 0 <= i <= j < evs.len() implies #[trigger] evs[i].time
                    <= #[trigger] evs[j].time by {
                    if i == 0 {
                        if j > 0 {
                            assert(evs[j] == tail[j - 1]);
                            assert(tail[j - 1].time >= st2.time);
                        }
                    } else {
                        assert(evs[i] == tail[i - 1]);
                        assert(evs[j] == tail[j - 1]);
                    }
                }
            },
            None => {
                assert(evs == tail);
            },
        }
    }
}

/// A sequence of track chunks parses into exactly as many tracks as
/// were asked for, each with non-decreasing event times.
pub proof fn lemma_read_tracks_props(bytes: Seq<u8>, pos: int, n: nat)
    requires
        spec_read_tracks(bytes, pos, n) is Ok,
        bytes.len() <= usize::MAX,
    ensures
        spec_read_tracks(bytes, pos, n)->Ok_0.0.len() == n,
        forall|t: int|
            0 <= t < n ==> events_sorted(
                #[trigger] spec_read_tracks(bytes, pos, n)->Ok_0.0[t].events,
            ),
    decreases n,
{
    if n != 0 {
        let (tm, p2) = spec_read_track(bytes, pos)->Ok_0;
        lemma_read_tracks_props(bytes, p2, (n - 1) as nat);
        lemma_track_events_sorted(
            bytes,
            crate::events::initial_iterator((pos + 8) as usize),
        );
        let rest = spec_read_tracks(bytes, p2, (n - 1) as nat)->Ok_0.0;
        let all = spec_read_tracks(bytes, pos, n)->Ok_0.0;
        assert(all =~= seq![tm] + rest);
        assert forall|t: int| 0 <= t < n implies events_sorted(
            #[trigger] all[t].events,
        ) by {
            if t > 0 {
                assert(all[t] == rest[t - 1]);
            }
        }
    }
}

/// A successfully parsed song has exactly as many tracks as its header
/// declared.
pub proof fn lemma_parse_track_count(bytes: Seq<u8>)
    requires
        spec_parse(bytes) is Ok,
        bytes.len() <= usize::MAX,
    ensures
        spec_parse(bytes)->Ok_0.tracks.len() == spec_parse(bytes)->Ok_0.track_count,
{
    let h = crate::reader::spec_read_header(bytes)->Ok_0;
    lemma_read_tracks_props(bytes, h.2, h.0 as nat);
}

/// In every track of a successfully parsed song, event times are
/// non-decreasing in sequence order.
pub proof fn lemma_parse_times_non_decreasing(bytes: Seq<u8>)
    requires
        spec_parse(bytes) is Ok,
        bytes.len() <= usize::MAX,
    ensures
        forall|t: int|
            0 <= t < spec_parse(bytes)->Ok_0.tracks.len() ==> events_sorted(
                #[trigger] spec_parse(bytes)->Ok_0.tracks[t].events,
            ),
{
    let h = crate::reader::spec_read_header(bytes)->Ok_0;
    lemma_read_tracks_props(bytes, h.2, h.0 as nat);
}

/// Streams with equal unread suffixes have equal lengths left and equal
/// bytes at corresponding offsets.
pub proof fn lemma_suffix_eq_facts(b1: Seq<u8>, b2: Seq<u8>, p1: int, p2: int)
    requires
        0 <= p1 <= b1.len(),
        0 <= p2 <= b2.len(),
        b1.skip(p1) == b2.skip(p2),
    ensures
        b1.len() - p1 == b2.len() - p2,
        forall|i: int|
            0 <= i && p1 + i < b1.len() ==> #[trigger] b1[p1 + i] == b2[p2 + i],
{
    assert(b1.skip(p1).len() == b2.skip(p2).len());
    assert forall|i: int| 0 <= i && p1 + i < b1.len() implies #[trigger] b1[p1 + i] == b2[p2
        + i] by {
        assert(i < b1.skip(p1).len());
        assert(b1.skip(p1)[i] == b1[p1 + i]);
        assert(i < b2.skip(p2).len());
        assert(b2.skip(p2)[i] == b2[p2 + i]);
    }
}

/// Equal unread suffixes stay equal as both cursors advance in step.
pub proof fn lemma_skip_more(b1: Seq<u8>, b2: Seq<u8>, p1: int, p2: int, k: int)
    requires
        0 <= p1 <= b1.len(),
        0 <= p2 <= b2.len(),
        b1.skip(p1) == b2.skip(p2),
        0 <= k <= b1.len() - p1,
    ensures
        b1.skip(p1 + k) == b2.skip(p2 + k),
{
    lemma_suffix_eq_facts(b1, b2, p1, p2);
    assert(b1.skip(p1 + k) =~= b2.skip(p2 + k)) by {
        assert forall|i: int| 0 <= i < b1.len() - p1 - k implies #[trigger] b1.skip(p1 + k)[i]
            == b2.skip(p2 + k)[i] by {
            assert(b1[p1 + (k + i)] == b2[p2 + (k + i)]);
            assert(b1.skip(p1 + k)[i] == b1[p1 + k + i]);
            assert(b2.skip(p2 + k)[i] == b2[p2 + k + i]);
        }
    }
}

/// A variable-length quantity carries over to another stream that holds
/// the same bytes at corresponding offsets.
pub proof fn lemma_vlq_end_transfer(b1: Seq<u8>, b2: Seq<u8>, q1: int, q2: int, e1: int)
    requires
        0 <= q1,
        0 <= q2,
        vlq_end(b1, q1) == Some(e1),
        q2 + (e1 - q1) <= b2.len(),
        forall|i: int| 0 <= i < e1 - q1 ==> #[trigger] b1[q1 + i] == b2[q2 + i],
    ensures
        vlq_end(b2, q2) == Some(q2 + (e1 - q1)),
    decreases b1.len() - q1,
{
    crate::vlq::lemma_vlq_end_bounds(b1, q1);
    assert(b1[q1 + 0] == b2[q2 + 0]);
    if b1[q1] < 0x80 {
        assert(vlq_end(b1, q1) == Some(q1 + 1));
    } else {
        assert(vlq_end(b1, q1 + 1) == Some(e1));
        assert forall|i: int| 0 <= i < e1 - (q1 + 1) implies #[trigger] b1[q1 + 1 + i] == b2[q2
            + 1 + i] by {
            assert(b1[q1 + (i + 1)] == b2[q2 + (i + 1)]);
        }
        lemma_vlq_end_transfer(b1, b2, q1 + 1, q2 + 1, e1);
    }
}

/// The decoded quantity is the same on both streams.
pub proof fn lemma_vlq_value_transfer(
    b1: Seq<u8>,
    b2: Seq<u8>,
    q1: int,
    q2: int,
    e1: int,
    acc: int,
)
    requires
        forall|i: int| 0 <= i < e1 - q1 ==> #[trigger] b1[q1 + i] == b2[q2 + i],
    ensures
        vlq_value(b1, q1, e1, acc) == vlq_value(b2, q2, e1 - q1 + q2, acc),
    decreases e1 - q1,
{
    if q1 < e1 {
        assert(b1[q1 + 0] == b2[q2 + 0]);
        assert forall|i: int| 0 <= i < e1 - (q1 + 1) implies #[trigger] b1[q1 + 1 + i] == b2[q2
            + 1 + i] by {
            assert(b1[q1 + (i + 1)] == b2[q2 + (i + 1)]);
        }
        lemma_vlq_value_transfer(b1, b2, q1 + 1, q2 + 1, e1, (acc * 0x80 + b1[q1] % 0x80) % (
        usize::MAX as int + 1));
    }
}

/// A variable-length quantity reads the same on two streams whose
/// unread suffixes are equal.
pub proof fn lemma_vlq_shift(b1: Seq<u8>, b2: Seq<u8>, q1: int, q2: int)
    requires
        0 <= q1 <= b1.len(),
        0 <= q2 <= b2.len(),
        b1.skip(q1) == b2.skip(q2),
    ensures
        vlq_end(b1, q1) is None <==> vlq_end(b2, q2) is None,
        vlq_end(b1, q1) matches Some(e1) ==> vlq_end(b2, q2) == Some(e1 - q1 + q2),
{
    lemma_suffix_eq_facts(b1, b2, q1, q2);
    if vlq_end(b1, q1) is Some {
        let e1: int = vlq_end(b1, q1)->Some_0;
        crate::vlq::lemma_vlq_end_bounds(b1, q1);
        lemma_vlq_end_transfer(b1, b2, q1, q2, e1);
    }
    if vlq_end(b2, q2) is Some {
        let e2: int = vlq_end(b2, q2)->Some_0;
        crate::vlq::lemma_vlq_end_bounds(b2, q2);
        assert forall|i: int| 0 <= i < e2 - q2 implies #[trigger] b2[q2 + i] == b1[q1 + i] by {
            assert(b1[q1 + i] == b2[q2 + i]);
        }
        lemma_vlq_end_transfer(b2, b1, q2, q1, e2);
    }
}

/// A system-exclusive skip ends at corresponding positions on two
/// streams whose unread suffixes are equal.
pub proof fn lemma_sysex_shift(b1: Seq<u8>, b2: Seq<u8>, q1: int, q2: int)
    requires
        0 <= q1 <= b1.len(),
        0 <= q2 <= b2.len(),
        b1.skip(q1) == b2.skip(q2),
    ensures
        sysex_end(b1, q1) is None <==> sysex_end(b2, q2) is None,
        sysex_end(b1, q1) matches Some(e1) ==> sysex_end(b2, q2) == Some(e1 - q1 + q2),
    decreases b1.len() - q1,
{
    lemma_suffix_eq_facts(b1, b2, q1, q2);
    if q1 < b1.len() {
        assert(b1[q1 + 0] == b2[q2 + 0]);
        if !(crate::types::spec_system_type_from_nibble(b1[q1] % 16) == Some(
            crate::types::MidiSystemEventType::EndOfSystemExclusive,
        )) {
            lemma_skip_more(b1, b2, q1, q2, 1);
            lemma_sysex_shift(b1, b2, q1 + 1, q2 + 1);
        }
    }
}

/// The meta handler reads the same meta event on two streams whose
/// unread suffixes are equal, up to the cursor offset.
pub proof fn lemma_meta_shift(
    b1: Seq<u8>,
    b2: Seq<u8>,
    q1: int,
    q2: int,
    time: usize,
    status: crate::types::MidiEventType,
    channel: u8,
)
    requires
        0 <= q1 <= b1.len(),
        0 <= q2 <= b2.len(),
        b1.skip(q1) == b2.skip(q2),
    ensures
        match (
            spec_read_meta(b1, q1, time, status, channel),
            spec_read_meta(b2, q2, time, status, channel),
        ) {
            (Err(e1), Err(e2)) => e1 == e2,
            (Ok(t1), Ok(t2)) => t2.0 == t1.0 - q1 + q2 && t1.1 == t2.1 && t1.2 == t2.2,
            _ => false,
        },
{
    lemma_suffix_eq_facts(b1, b2, q1, q2);
    if q1 < b1.len() {
        assert(b1[q1 + 0] == b2[q2 + 0]);
        lemma_skip_more(b1, b2, q1, q2, 1);
        lemma_vlq_shift(b1, b2, q1 + 1, q2 + 1);
        if vlq_end(b1, q1 + 1) is Some {
            let send: int = vlq_end(b1, q1 + 1)->Some_0;
            let send2: int = send - q1 + q2;
            crate::vlq::lemma_vlq_end_bounds(b1, q1 + 1);
            assert forall|i: int| 0 <= i < send - (q1 + 1) implies #[trigger] b1[q1 + 1 + i]
                == b2[q2 + 1 + i] by {
                assert(b1[q1 + (1 + i)] == b2[q2 + (1 + i)]);
            }
            lemma_vlq_value_transfer(b1, b2, q1 + 1, q2 + 1, send, 0);
            if send + 3 <= b1.len() {
                assert(b1[q1 + (send - q1)] == b2[q2 + (send - q1)]);
                assert(b1[q1 + (send + 1 - q1)] == b2[q2 + (send + 1 - q1)]);
                assert(b1[q1 + (send + 2 - q1)] == b2[q2 + (send + 2 - q1)]);
                assert(b1[send] == b2[send2] && b1[send + 1] == b2[send2 + 1] && b1[send + 2]
                    == b2[send2 + 2]);
            }
        }
    }
}

/// The dispatcher produces the same event, skip, or fault on two
/// streams whose unread suffixes are equal, up to the cursor offset.
pub proof fn lemma_dispatch_shift(
    b1: Seq<u8>,
    b2: Seq<u8>,
    q1: int,
    q2: int,
    time: usize,
    status: crate::types::MidiEventType,
    channel: u8,
)
    requires
        0 <= q1 <= b1.len(),
        0 <= q2 <= b2.len(),
        b1.skip(q1) == b2.skip(q2),
    ensures
        match (
            crate::events::spec_dispatch(b1, q1, time, status, channel),
            crate::events::spec_dispatch(b2, q2, time, status, channel),
        ) {
            (Err(e1), Err(e2)) => e1 == e2,
            (Ok(t1), Ok(t2)) => t2.0 == t1.0 - q1 + q2 && t1.1 == t2.1 && t1.2 == t2.2,
            _ => false,
        },
{
    lemma_suffix_eq_facts(b1, b2, q1, q2);
    match crate::types::spec_event_length(status) {
        crate::types::DataLength::System => {
            match crate::types::spec_system_type_from_nibble(channel) {
                Some(crate::types::MidiSystemEventType::SystemExclusive) => {
                    lemma_sysex_shift(b1, b2, q1, q2);
                },
                Some(crate::types::MidiSystemEventType::SystemResetOrMeta) => {
                    lemma_meta_shift(b1, b2, q1, q2, time, status, channel);
                },
                _ => {
                },
            }
        },
        _ => {
            if q1 + 2 <= b1.len() {
                assert(b1[q1 + 0] == b2[q2 + 0]);
                assert(b1[q1 + 1] == b2[q2 + 1]);
            } else if q1 + 1 <= b1.len() {
                assert(b1[q1 + 0] == b2[q2 + 0]);
            }
        },
    }
}

/// One step of the state machine behaves the same from two states that
/// agree on everything but the cursor, over streams whose unread
/// suffixes are equal.
pub proof fn lemma_next_shift(b1: Seq<u8>, b2: Seq<u8>, st1: EventIterator, st2: EventIterator)
    requires
        st1.time == st2.time,
        st1.running_status == st2.running_status,
        st1.running_channel == st2.running_channel,
        st1.pos <= b1.len(),
        st2.pos <= b2.len(),
        b1.skip(st1.pos as int) == b2.skip(st2.pos as int),
        b1.len() <= usize::MAX,
        b2.len() <= usize::MAX,
    ensures
        match (spec_next(b1, st1), spec_next(b2, st2)) {
            (Err(e1), Err(e2)) => e1 == e2,
            (Ok(n1), Ok(n2)) => {
                &&& n1.1 == n2.1
                &&& n2.0.pos == n1.0.pos - st1.pos + st2.pos
                &&& n1.0.time == n2.0.time
                &&& n1.0.running_status == n2.0.running_status
                &&& n1.0.running_channel == n2.0.running_channel
                &&& n1.0.end_of_track == n2.0.end_of_track
            },
            _ => false,
        },
{
    let p1 = st1.pos as int;
    let p2 = st2.pos as int;
    lemma_suffix_eq_facts(b1, b2, p1, p2);
    lemma_vlq_shift(b1, b2, p1, p2);
    if vlq_end(b1, p1) is Some {
        let d1: int = vlq_end(b1, p1)->Some_0;
        let d2: int = d1 - p1 + p2;
        crate::vlq::lemma_vlq_end_bounds(b1, p1);
        assert forall|i: int| 0 <= i < d1 - p1 implies #[trigger] b1[p1 + i] == b2[p2 + i] by {
        }
        lemma_vlq_value_transfer(b1, b2, p1, p2, d1, 0);
        let time = crate::events::sat_add_time(st1.time, vlq_value(b1, p1, d1, 0));
        if d1 < b1.len() {
            assert(b1[p1 + (d1 - p1)] == b2[p2 + (d1 - p1)]);
            lemma_skip_more(b1, b2, p1, p2, d1 - p1);
            if b1[d1] >= 0x80 {
                match crate::types::spec_event_type_from_nibble(b1[d1] / 16) {
                    Some(s2) => {
                        lemma_skip_more(b1, b2, d1, d2, 1);
                        lemma_dispatch_shift(b1, b2, d1 + 1, d2 + 1, time, s2, b1[d1] % 16);
                        if crate::events::spec_dispatch(b1, d1 + 1, time, s2, b1[d1] % 16)
                            is Ok {
                            crate::events::lemma_dispatch_props(
                                b1,
                                d1 + 1,
                                time,
                                s2,
                                b1[d1] % 16,
                            );
                            crate::events::lemma_dispatch_props(
                                b2,
                                d2 + 1,
                                time,
                                s2,
                                b1[d1] % 16,
                            );
                        }
                    },
                    None => {
                    },
                }
            } else {
                match (st1.running_status, st1.running_channel) {
                    (Some(s), Some(c)) => {
                        lemma_dispatch_shift(b1, b2, d1, d2, time, s, c);
                        if crate::events::spec_dispatch(b1, d1, time, s, c) is Ok {
                            crate::events::lemma_dispatch_props(b1, d1, time, s, c);
                            crate::events::lemma_dispatch_props(b2, d2, time, s, c);
                        }
                    },
                    _ => {
                    },
                }
            }
        }
    }
}

/// A whole track decode yields the same events, or the same fault, from
/// two states that agree on everything but the cursor, over streams
/// whose unread suffixes are equal: decoding depends only on the unread
/// suffix and the carried state.
pub proof fn lemma_track_events_shift(
    b1: Seq<u8>,
    b2: Seq<u8>,
    st1: EventIterator,
    st2: EventIterator,
)
    requires
        st1.time == st2.time,
        st1.running_status == st2.running_status,
        st1.running_channel == st2.running_channel,
        st1.end_of_track == st2.end_of_track,
        st1.pos <= b1.len(),
        st2.pos <= b2.len(),
        b1.skip(st1.pos as int) == b2.skip(st2.pos as int),
        b1.len() <= usize::MAX,
        b2.len() <= usize::MAX,
    ensures
        match (spec_track_events(b1, st1), spec_track_events(b2, st2)) {
            (Err(e1), Err(e2)) => e1 == e2,
            (Ok(r1), Ok(r2)) => r1.0 == r2.0,
            _ => false,
        },
    decreases b1.len() - st1.pos,
{
    reveal(spec_track_events);
    lemma_suffix_eq_facts(b1, b2, st1.pos as int, st2.pos as int);
    if !(st1.end_of_track || st1.pos >= b1.len()) {
        lemma_next_shift(b1, b2, st1, st2);
        if spec_next(b1, st1) is Ok {
            let n1 = spec_next(b1, st1)->Ok_0;
            let n2 = spec_next(b2, st2)->Ok_0;
            lemma_next_props(b1, st1);
            lemma_next_props(b2, st2);
            lemma_skip_more(
                b1,
                b2,
                st1.pos as int,
                st2.pos as int,
                n1.0.pos - st1.pos,
            );
            lemma_track_events_shift(b1, b2, n1.0, n2.0);
        }
    }
}

/// Running-status decoding: a track that omits a repeated status byte
/// decodes to exactly the events of the track that writes it out.
/// `b1` omits it: after the delta time at `st1.pos`, which ends at
/// `d1`, the next byte is data, so the remembered `status` / `channel`
/// apply.  `b2` carries the same delta, then the explicit status byte
/// `sb` encoding that same status and channel, then the same remaining
/// bytes.  Both tracks decode to the same events, or fail with the same
/// fault.
#[verifier::rlimit(100)]
pub proof fn lemma_running_status_equivalence(
    b1: Seq<u8>,
    b2: Seq<u8>,
    st1: EventIterator,
    st2: EventIterator,
    sb: u8,
    d1: int,
    status: crate::types::MidiEventType,
    channel: u8,
)
    requires
        !st1.end_of_track,
        !st2.end_of_track,
        st1.time == st2.time,
        st1.running_status == Some(status),
        st1.running_channel == Some(channel),
        st2.running_status == st1.running_status,
        st2.running_channel == st1.running_channel,
        sb >= 0x80,
        crate::types::spec_event_type_from_nibble(sb / 16) == Some(status),
        sb % 16 == channel,
        st1.pos <= b1.len(),
        st2.pos <= b2.len(),
        vlq_end(b1, st1.pos as int) == Some(d1),
        d1 < b1.len(),
        b1[d1] < 0x80,
        b2.skip(st2.pos as int) == b1.subrange(st1.pos as int, d1) + seq![sb] + b1.skip(d1),
        b1.len() <= usize::MAX,
        b2.len() <= usize::MAX,
    ensures
        match (spec_track_events(b1, st1), spec_track_events(b2, st2)) {
            (Err(e1), Err(e2)) => e1 == e2,
            (Ok(r1), Ok(r2)) => r1.0 == r2.0,
            _ => false,
        },
{
    reveal(spec_track_events);
    let p1 = st1.pos as int;
    let p2 = st2.pos as int;
    let k = d1 - p1;
    let d2 = p2 + k;
    let head = b1.subrange(p1, d1);
    let concat = head + seq![sb] + b1.skip(d1);
    crate::vlq::lemma_vlq_end_bounds(b1, p1);
    assert(b2.skip(p2).len() == b2.len() - p2);
    assert(head.len() == k);
    assert(concat.len() == k + 1 + (b1.len() - d1));
    assert(b2.len() - p2 == k + 1 + (b1.len() - d1));
    assert forall|i: int| 0 <= i < k implies #[trigger] b1[p1 + i] == b2[p2 + i] by {
        assert(b2.skip(p2)[i] == b2[p2 + i]);
        assert(concat[i] == (head + seq![sb])[i]);
        assert((head + seq![sb])[i] == head[i]);
        assert(head[i] == b1[p1 + i]);
    }
    lemma_vlq_end_transfer(b1, b2, p1, p2, d1);
    lemma_vlq_value_transfer(b1, b2, p1, p2, d1, 0);
    let time = crate::events::sat_add_time(st1.time, vlq_value(b1, p1, d1, 0));
    assert(b2[d2] == sb) by {
        assert(b2.skip(p2)[k] == b2[p2 + k]);
        assert(concat[k] == (head + seq![sb])[k]);
        assert((head + seq![sb])[k] == seq![sb][0]);
    }
    assert(b1.skip(d1) =~= b2.skip(d2 + 1)) by {
        assert forall|i: int| 0 <= i < b1.len() - d1 implies #[trigger] b1.skip(d1)[i] == b2.skip(
            d2 + 1,
        )[i] by {
            assert(b2.skip(d2 + 1)[i] == b2[d2 + 1 + i]);
            assert(b2.skip(p2)[k + 1 + i] == b2[p2 + (k + 1 + i)]);
            assert(concat[k + 1 + i] == b1.skip(d1)[i]);
        }
    }
    lemma_dispatch_shift(b1, b2, d1, d2 + 1, time, status, channel);
    match crate::events::spec_dispatch(b1, d1, time, status, channel) {
        Err(_) => {
        },
        Ok(t1) => {
            crate::events::lemma_dispatch_props(b1, d1, time, status, channel);
            crate::events::lemma_dispatch_props(b2, d2 + 1, time, status, channel);
            let n1 = spec_next(b1, st1)->Ok_0;
            let n2 = spec_next(b2, st2)->Ok_0;
            lemma_next_props(b1, st1);
            lemma_next_props(b2, st2);
            lemma_skip_more(b1, b2, d1, d2 + 1, n1.0.pos - d1);
            lemma_track_events_shift(b1, b2, n1.0, n2.0);
        },
    }
}

/// A `SystemExclusive` status followed by arbitrary payload bytes up to
/// an `EndOfSystemExclusive`-coded terminator decodes to no event at
/// all, with the cursor moved just past the terminator.
pub proof fn lemma_sysex_skipped(bytes: Seq<u8>, st: EventIterator, dend: int, e: int)
    requires
        vlq_end(bytes, st.pos as int) == Some(dend),
        dend < bytes.len(),
        bytes[dend] / 16 == 0xf,
        bytes[dend] % 16 == 0x0,
        sysex_end(bytes, dend + 1) == Some(e),
        bytes.len() <= usize::MAX,
    ensures
        spec_next(bytes, st) matches Ok(sr) && sr.1 is None && sr.0.pos == e,
{
    crate::vlq::lemma_vlq_end_bounds(bytes, st.pos as int);
    crate::events::lemma_sysex_end_bounds(bytes, dend + 1);
    assert(bytes[dend] >= 0x80);
}

/// A header whose magic is not `MThd` fails the whole parse with
/// `FormatError`, so no song is produced.
pub proof fn lemma_bad_magic_rejected(bytes: Seq<u8>)
    requires
        bytes.len() >= 4,
        be32(bytes, 0) != 0x4d546864,
    ensures
        spec_parse(bytes) == Err::<crate::types::SongModel, MidiError>(MidiError::FormatError),
{
}

/// A `TempoSetting` meta event whose declared size is not 3 fails with
/// `MalformedMetaEventError`.
pub proof fn lemma_tempo_size_enforced(
    bytes: Seq<u8>,
    pos: int,
    time: usize,
    status: crate::types::MidiEventType,
    channel: u8,
)
    requires
        0 <= pos < bytes.len(),
        crate::types::spec_meta_type_from_byte(bytes[pos]) == Some(
            MidiMetaEventType::TempoSetting,
        ),
        vlq_end(bytes, pos + 1) matches Some(send) && vlq_value(bytes, pos + 1, send, 0) != 3,
    ensures
        spec_read_meta(bytes, pos, time, status, channel) == Err::<
            (int, Option<MidiEvent>, bool),
            MidiError,
        >(MidiError::MalformedMetaEventError),
{
}

} // verus!
