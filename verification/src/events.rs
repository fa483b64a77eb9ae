use vstd::prelude::*;

use crate::types::{
    DataLength, MidiError, MidiEvent, MidiEventType, MidiMetaEventType, MidiSystemEventType,
    event_type_from_nibble, meta_type_from_byte, spec_event_length, spec_event_type_from_nibble,
    spec_meta_type_from_byte, spec_system_type_from_nibble, system_type_from_nibble,
};
use crate::vlq::{lemma_vlq_end_bounds, read_variable_number, vlq_end, vlq_value};

verus! {

/// The track-level decoding state: cursor position, accumulated absolute
/// time, the remembered running status, and the terminal flag set by an
/// `EndOfTrack` meta event.
#[derive(Clone, Copy, Debug)]
pub struct EventIterator {
    pub pos: usize,
    pub time: usize,
    pub running_status: Option<MidiEventType>,
    pub running_channel: Option<u8>,
    pub end_of_track: bool,
}

/// The decoding state at the start of a track whose events begin at
/// `pos`.
pub open spec fn initial_iterator(pos: usize) -> EventIterator {
    EventIterator {
        pos,
        time: 0,
        running_status: None,
        running_channel: None,
        end_of_track: false,
    }
}

/// Absolute time after a delta: the sum, saturated at the machine word
/// so that accumulated time never decreases.
pub open spec fn sat_add_time(time: usize, delta: int) -> usize {
    if time + delta > usize::MAX {
        usize::MAX
    } else {
        (time + delta) as usize
    }
}

/// Position just past the system-exclusive payload that starts at `pos`:
/// one past the first byte whose low nibble is the
/// `EndOfSystemExclusive` code.  `None` when the stream ends first.
pub open spec fn sysex_end(bytes: Seq<u8>, pos: int) -> Option<int>
    decreases bytes.len() - pos,
{
    if pos < 0 || pos >= bytes.len() {
        None
    } else if spec_system_type_from_nibble(bytes[pos] % 16) == Some(
        MidiSystemEventType::EndOfSystemExclusive,
    ) {
        Some(pos + 1)
    } else {
        sysex_end(bytes, pos + 1)
    }
}

/// A system-exclusive payload ends after its start and within the
/// stream.
pub proof fn lemma_sysex_end_bounds(bytes: Seq<u8>, pos: int)
    requires
        sysex_end(bytes, pos) is Some,
    ensures
        pos < sysex_end(bytes, pos)->Some_0 <= bytes.len(),
    decreases bytes.len() - pos,
{
    if !(pos < 0 || pos >= bytes.len()) && spec_system_type_from_nibble(bytes[pos] % 16) != Some(
        MidiSystemEventType::EndOfSystemExclusive,
    ) {
        lemma_sysex_end_bounds(bytes, pos + 1);
    }
}

/// What resolving a status at `pos` yields: a new status/channel pair if
/// the byte has its high bit set, `None` if the byte is data and the
/// running status applies (the byte is then not consumed).
pub open spec fn spec_read_status(bytes: Seq<u8>, pos: int) -> Result<
    Option<(MidiEventType, u8)>,
    MidiError,
> {
    if pos < 0 || pos >= bytes.len() {
        Err(MidiError::TruncatedInputError)
    } else if bytes[pos] >= 0x80 {
        match spec_event_type_from_nibble(bytes[pos] / 16) {
            None => Err(MidiError::UnknownEventTypeError),
            Some(status) => Ok(Some((status, bytes[pos] % 16))),
        }
    } else {
        Ok(None)
    }
}

/// What a fixed-arity data event read at `pos` yields: the new position
/// and the event carrying the resolved status, channel and time.
pub open spec fn spec_data_event(
    bytes: Seq<u8>,
    pos: int,
    time: usize,
    status: MidiEventType,
    channel: u8,
    length: DataLength,
) -> Result<(int, MidiEvent), MidiError>
    recommends
        length != DataLength::System,
{
    let need: int = if length == DataLength::Double {
        2
    } else {
        1
    };
    if pos + need > bytes.len() {
        Err(MidiError::TruncatedInputError)
    } else {
        Ok(
            (
                pos + need,
                MidiEvent {
                    event_type: status,
                    system_event_type: None,
                    meta_event_type: None,
                    time,
                    channel,
                    value1: bytes[pos] as usize,
                    value2: if length == DataLength::Double {
                        Some(bytes[pos + 1] as usize)
                    } else {
                        None
                    },
                },
            ),
        )
    }
}

/// What the meta-event handler at `pos` yields: the meta type byte, the
/// declared size, then either the terminal flag (`EndOfTrack`), one
/// tempo event (`TempoSetting`, size exactly 3), or a skip of exactly
/// `size` payload bytes.
pub open spec fn spec_read_meta(
    bytes: Seq<u8>,
    pos: int,
    time: usize,
    status: MidiEventType,
    channel: u8,
) -> Result<(int, Option<MidiEvent>, bool), MidiError> {
    if pos < 0 || pos >= bytes.len() {
        Err(MidiError::TruncatedInputError)
    } else {
        let mtype = spec_meta_type_from_byte(bytes[pos]);
        match vlq_end(bytes, pos + 1) {
            None => Err(MidiError::TruncatedInputError),
            Some(send) => {
                let size = vlq_value(bytes, pos + 1, send, 0);
                if mtype == Some(MidiMetaEventType::EndOfTrack) {
                    Ok((send, None, true))
                } else if mtype == Some(MidiMetaEventType::TempoSetting) {
                    if size != 3 {
                        Err(MidiError::MalformedMetaEventError)
                    } else if send + 3 > bytes.len() {
                        Err(MidiError::TruncatedInputError)
                    } else {
                        Ok(
                            (
                                send + 3,
                                Some(
                                    MidiEvent {
                                        event_type: status,
                                        system_event_type: Some(
                                            MidiSystemEventType::SystemResetOrMeta,
                                        ),
                                        meta_event_type: Some(MidiMetaEventType::TempoSetting),
                                        time,
                                        channel,
                                        value1: (bytes[send] * 0x10000 + bytes[send + 1] * 0x100
                                            + bytes[send + 2]) as usize,
                                        value2: None,
                                    },
                                ),
                                false,
                            ),
                        )
                    }
                } else {
                    if send + size > bytes.len() {
                        Err(MidiError::TruncatedInputError)
                    } else {
                        Ok((send + size, None, false))
                    }
                }
            },
        }
    }
}

/// What the system dispatcher yields for a `System` status whose type
/// nibble is `channel`: a sysex skip, a two-byte skip, a zero-payload
/// message, a meta event, or a fault.
pub open spec fn spec_read_system(
    bytes: Seq<u8>,
    pos: int,
    time: usize,
    status: MidiEventType,
    channel: u8,
) -> Result<(int, Option<MidiEvent>, bool), MidiError> {
    match spec_system_type_from_nibble(channel) {
        None => Err(MidiError::UnknownEventTypeError),
        Some(MidiSystemEventType::SystemExclusive) => match sysex_end(bytes, pos) {
            None => Err(MidiError::TruncatedInputError),
            Some(e) => Ok((e, None, false)),
        },
        Some(MidiSystemEventType::EndOfSystemExclusive) => Err(MidiError::ProtocolViolationError),
        Some(MidiSystemEventType::SongPositionPointer) => if pos + 2 > bytes.len() {
            Err(MidiError::TruncatedInputError)
        } else {
            Ok((pos + 2, None, false))
        },
        Some(MidiSystemEventType::SongSelect) => if pos + 2 > bytes.len() {
            Err(MidiError::TruncatedInputError)
        } else {
            Ok((pos + 2, None, false))
        },
        Some(MidiSystemEventType::SystemResetOrMeta) => spec_read_meta(
            bytes,
            pos,
            time,
            status,
            channel,
        ),
        Some(_) => Ok((pos, None, false)),
    }
}

/// What dispatching a resolved status at `pos` yields.
pub open spec fn spec_dispatch(
    bytes: Seq<u8>,
    pos: int,
    time: usize,
    status: MidiEventType,
    channel: u8,
) -> Result<(int, Option<MidiEvent>, bool), MidiError> {
    match spec_event_length(status) {
        DataLength::System => spec_read_system(bytes, pos, time, status, channel),
        length => match spec_data_event(bytes, pos, time, status, channel, length) {
            Err(e) => Err(e),
            Ok((p2, ev)) => Ok((p2, Some(ev), false)),
        },
    }
}

/// The state after one successful dispatch.
pub open spec fn spec_after_dispatch(
    pos: int,
    time: usize,
    status: MidiEventType,
    channel: u8,
    end_of_track: bool,
) -> EventIterator {
    EventIterator {
        pos: pos as usize,
        time,
        running_status: Some(status),
        running_channel: Some(channel),
        end_of_track,
    }
}

/// What one step of the track state machine yields from state `st`:
/// a delta time added onto the absolute-time accumulator, a status
/// (fresh, or the running one when the next byte is data), and the
/// dispatched body.  The event is `None` for the system, meta and skip
/// cases that produce nothing.
pub open spec fn spec_next(bytes: Seq<u8>, st: EventIterator) -> Result<
    (EventIterator, Option<MidiEvent>),
    MidiError,
> {
    match vlq_end(bytes, st.pos as int) {
        None => Err(MidiError::TruncatedInputError),
        Some(dend) => {
            let time = sat_add_time(st.time, vlq_value(bytes, st.pos as int, dend, 0));
            match spec_read_status(bytes, dend) {
                Err(e) => Err(e),
                Ok(Some((status, channel))) => match spec_dispatch(
                    bytes,
                    dend + 1,
                    time,
                    status,
                    channel,
                ) {
                    Err(e) => Err(e),
                    Ok((p2, ev, eot)) => Ok((spec_after_dispatch(p2, time, status, channel, eot), ev)),
                },
                Ok(None) => match (st.running_status, st.running_channel) {
                    (Some(status), Some(channel)) => match spec_dispatch(
                        bytes,
                        dend,
                        time,
                        status,
                        channel,
                    ) {
                        Err(e) => Err(e),
                        Ok((p2, ev, eot)) => Ok(
                            (spec_after_dispatch(p2, time, status, channel, eot), ev),
                        ),
                    },
                    _ => Err(MidiError::ProtocolViolationError),
                },
            }
        },
    }
}

/// A successful meta read lands strictly past its start and within the
/// stream, and an event it produces is stamped with the given time.
pub proof fn lemma_meta_props(
    bytes: Seq<u8>,
    pos: int,
    time: usize,
    status: MidiEventType,
    channel: u8,
)
    requires
        spec_read_meta(bytes, pos, time, status, channel) is Ok,
        0 <= pos,
    ensures
        pos < spec_read_meta(bytes, pos, time, status, channel)->Ok_0.0 <= bytes.len(),
        spec_read_meta(bytes, pos, time, status, channel)->Ok_0.1 matches Some(e) ==> e.time
            == time,
{
    lemma_vlq_end_bounds(bytes, pos + 1);
    let send = vlq_end(bytes, pos + 1)->Some_0;
    crate::vlq::lemma_vlq_value_bounds(bytes, pos + 1, send, 0);
}

/// A successful dispatch lands at or past its start and within the
/// stream, and an event it produces is stamped with the given time.
pub proof fn lemma_dispatch_props(
    bytes: Seq<u8>,
    pos: int,
    time: usize,
    status: MidiEventType,
    channel: u8,
)
    requires
        spec_dispatch(bytes, pos, time, status, channel) is Ok,
        0 <= pos <= bytes.len(),
    ensures
        pos <= spec_dispatch(bytes, pos, time, status, channel)->Ok_0.0 <= bytes.len(),
        spec_dispatch(bytes, pos, time, status, channel)->Ok_0.1 matches Some(e) ==> e.time
            == time,
{
    match spec_event_length(status) {
        DataLength::System => {
            match spec_system_type_from_nibble(channel) {
                Some(MidiSystemEventType::SystemExclusive) => {
                    lemma_sysex_end_bounds(bytes, pos);
                },
                Some(MidiSystemEventType::SystemResetOrMeta) => {
                    lemma_meta_props(bytes, pos, time, status, channel);
                },
                _ => {
                },
            }
        },
        _ => {
        },
    }
}

/// A successful step advances the cursor (it consumes at least the
/// delta-time byte), never moves time backwards, stamps any produced
/// event with the new time, and leaves a running status in place.
pub proof fn lemma_next_props(bytes: Seq<u8>, st: EventIterator)
    requires
        spec_next(bytes, st) is Ok,
        bytes.len() <= usize::MAX,
    ensures
        st.pos < spec_next(bytes, st)->Ok_0.0.pos <= bytes.len(),
        spec_next(bytes, st)->Ok_0.0.time >= st.time,
        spec_next(bytes, st)->Ok_0.1 matches Some(e) ==> e.time == spec_next(
            bytes,
            st,
        )->Ok_0.0.time,
        spec_next(bytes, st)->Ok_0.0.running_status is Some,
        spec_next(bytes, st)->Ok_0.0.running_channel is Some,
{
    lemma_vlq_end_bounds(bytes, st.pos as int);
    let dend = vlq_end(bytes, st.pos as int)->Some_0;
    crate::vlq::lemma_vlq_value_bounds(bytes, st.pos as int, dend, 0);
    let time = sat_add_time(st.time, vlq_value(bytes, st.pos as int, dend, 0));
    match spec_read_status(bytes, dend) {
        Ok(Some((status, channel))) => {
            lemma_dispatch_props(bytes, dend + 1, time, status, channel);
        },
        Ok(None) => {
            match (st.running_status, st.running_channel) {
                (Some(status), Some(channel)) => {
                    lemma_dispatch_props(bytes, dend, time, status, channel);
                },
                _ => {
                },
            }
        },
        Err(_) => {
        },
    }
}

/// Resolves the status for the next event: consumes a fresh status byte
/// (high bit set) and splits it into category and channel nibbles, or
/// reports that the byte at `pos` is data and the running status
/// applies.
pub fn read_status_byte(bytes: &Vec<u8>, pos: usize) -> (r: Result<
    Option<(MidiEventType, u8)>,
    MidiError,
>)
    ensures
        r == spec_read_status(bytes@, pos as int),
{
    if pos >= bytes.len() {
        return Err(MidiError::TruncatedInputError);
    }
    let byte = bytes[pos];
    if byte >= 0x80 {
        match event_type_from_nibble(byte / 16) {
            None => Err(MidiError::UnknownEventTypeError),
            Some(status) => Ok(Some((status, byte % 16))),
        }
    } else {
        Ok(None)
    }
}

/// Skips a system-exclusive payload: discards bytes until one whose low
/// nibble is the `EndOfSystemExclusive` code, and returns the position
/// just past it.
pub fn read_sysex(bytes: &Vec<u8>, pos: usize) -> (r: Result<usize, MidiError>)
    ensures
        sysex_end(bytes@, pos as int) matches Some(e) ==> r matches Ok(p) && p as int == e,
        sysex_end(bytes@, pos as int) is None ==> r == Err::<usize, _>(
            MidiError::TruncatedInputError,
        ),
{
    if pos >= bytes.len() {
        return Err(MidiError::TruncatedInputError);
    }
    let mut p: usize = pos;
    loop
        invariant
            pos <= p <= bytes@.len(),
            sysex_end(bytes@, p as int) == sysex_end(bytes@, pos as int),
        decreases bytes@.len() - p,
    {
        if p >= bytes.len() {
            return Err(MidiError::TruncatedInputError);
        }
        let byte = bytes[p];
        p = p + 1;
        match system_type_from_nibble(byte % 16) {
            Some(MidiSystemEventType::EndOfSystemExclusive) => {
                return Ok(p);
            },
            _ => {
            },
        }
    }
}

/// Handles a meta message: one meta type byte, a variable-length size,
/// then the `EndOfTrack` flag, a tempo event, or a skip of the payload.
pub fn read_meta_event(
    bytes: &Vec<u8>,
    pos: usize,
    time: usize,
    status: MidiEventType,
    channel: u8,
) -> (r: Result<(usize, Option<MidiEvent>, bool), MidiError>)
    ensures
        spec_read_meta(bytes@, pos as int, time, status, channel) matches Ok(t) ==> {
            &&& r matches Ok(v)
            &&& v.0 as int == t.0
            &&& v.1 == t.1
            &&& v.2 == t.2
        },
        spec_read_meta(bytes@, pos as int, time, status, channel) matches Err(e) ==> r == Err::<
            (usize, Option<MidiEvent>, bool),
            _,
        >(e),
{
    if pos >= bytes.len() {
        return Err(MidiError::TruncatedInputError);
    }
    let mtype = meta_type_from_byte(bytes[pos]);
    let (size, send) = match read_variable_number(bytes, pos + 1) {
        Ok(v) => v,
        Err(e) => {
            return Err(e);
        },
    };
    proof {
        lemma_vlq_end_bounds(bytes@, pos + 1);
    }
    match mtype {
        Some(MidiMetaEventType::EndOfTrack) => Ok((send, None, true)),
        Some(MidiMetaEventType::TempoSetting) => {
            if size != 3 {
                Err(MidiError::MalformedMetaEventError)
            } else if bytes.len() < 3 || send > bytes.len() - 3 {
                Err(MidiError::TruncatedInputError)
            } else {
                let t1 = bytes[send];
                let t2 = bytes[send + 1];
                let t3 = bytes[send + 2];
                let tempo: usize = (t1 as usize) * 0x10000 + (t2 as usize) * 0x100 + (t3 as usize);
                Ok(
                    (
                        send + 3,
                        Some(
                            MidiEvent {
                                event_type: status,
                                system_event_type: Some(MidiSystemEventType::SystemResetOrMeta),
                                meta_event_type: Some(MidiMetaEventType::TempoSetting),
                                time,
                                channel,
                                value1: tempo,
                                value2: None,
                            },
                        ),
                        false,
                    ),
                )
            }
        },
        _ => {
            if size > bytes.len() - send {
                Err(MidiError::TruncatedInputError)
            } else {
                Ok((send + size, None, false))
            }
        },
    }
}

/// Dispatches a `System` status byte whose type nibble is `channel`:
/// skips sysex payloads and two-byte messages, treats the zero-payload
/// messages as silent, and hands `SystemResetOrMeta` to the meta
/// handler.
pub fn read_system_event(
    bytes: &Vec<u8>,
    pos: usize,
    time: usize,
    status: MidiEventType,
    channel: u8,
) -> (r: Result<(usize, Option<MidiEvent>, bool), MidiError>)
    ensures
        spec_read_system(bytes@, pos as int, time, status, channel) matches Ok(t) ==> {
            &&& r matches Ok(v)
            &&& v.0 as int == t.0
            &&& v.1 == t.1
            &&& v.2 == t.2
        },
        spec_read_system(bytes@, pos as int, time, status, channel) matches Err(e) ==> r == Err::<
            (usize, Option<MidiEvent>, bool),
            _,
        >(e),
{
    match system_type_from_nibble(channel) {
        None => Err(MidiError::UnknownEventTypeError),
        Some(MidiSystemEventType::SystemExclusive) => match read_sysex(bytes, pos) {
            Ok(e) => Ok((e, None, false)),
            Err(er) => Err(er),
        },
        Some(MidiSystemEventType::EndOfSystemExclusive) => Err(MidiError::ProtocolViolationError),
        Some(MidiSystemEventType::SongPositionPointer) | Some(MidiSystemEventType::SongSelect) => {
            if bytes.len() < 2 || pos > bytes.len() - 2 {
                Err(MidiError::TruncatedInputError)
            } else {
                Ok((pos + 2, None, false))
            }
        },
        Some(MidiSystemEventType::SystemResetOrMeta) => read_meta_event(
            bytes,
            pos,
            time,
            status,
            channel,
        ),
        Some(_) => Ok((pos, None, false)),
    }
}

impl EventIterator {
    /// A fresh decoding state for a track whose events begin at `pos`.
    pub fn new(pos: usize) -> (r: EventIterator)
        ensures
            r == initial_iterator(pos),
    {
        EventIterator {
            pos,
            time: 0,
            running_status: None,
            running_channel: None,
            end_of_track: false,
        }
    }

    /// Payload arity of an event category.
    pub fn get_event_length(&self, event_type: MidiEventType) -> (r: DataLength)
        ensures
            r == spec_event_length(event_type),
    {
        match event_type {
            MidiEventType::NoteOff => DataLength::Double,
            MidiEventType::NoteOn => DataLength::Double,
            MidiEventType::PolyponicKeyPressure => DataLength::Double,
            MidiEventType::ControlChange => DataLength::Double,
            MidiEventType::PitchBendChange => DataLength::Double,
            MidiEventType::ProgramChange => DataLength::Single,
            MidiEventType::ChannelPressure => DataLength::Single,
            MidiEventType::System => DataLength::System,
        }
    }

    /// Reads the one- or two-byte payload of a channel-voice event and
    /// builds the event from the remembered status, channel and time.
    pub fn read_data_event(&mut self, bytes: &Vec<u8>, length: DataLength) -> (r: Result<
        MidiEvent,
        MidiError,
    >)
        requires
            old(self).running_status is Some,
            old(self).running_channel is Some,
            length != DataLength::System,
        ensures
            spec_data_event(
                bytes@,
                old(self).pos as int,
                old(self).time,
                old(self).running_status->Some_0,
                old(self).running_channel->Some_0,
                length,
            ) matches Ok(t) ==> {
                &&& r == Ok::<MidiEvent, MidiError>(t.1)
                &&& final(self).pos as int == t.0
                &&& final(self).time == old(self).time
                &&& final(self).running_status == old(self).running_status
                &&& final(self).running_channel == old(self).running_channel
                &&& final(self).end_of_track == old(self).end_of_track
            },
            spec_data_event(
                bytes@,
                old(self).pos as int,
                old(self).time,
                old(self).running_status->Some_0,
                old(self).running_channel->Some_0,
                length,
            ) matches Err(e) ==> r == Err::<MidiEvent, MidiError>(e) && *final(self) == *old(self),
    {
        let double = length == DataLength::Double;
        let need: usize = if double {
            2
        } else {
            1
        };
        if bytes.len() < need || self.pos > bytes.len() - need {
            return Err(MidiError::TruncatedInputError);
        }
        let value1 = bytes[self.pos] as usize;
        let value2: Option<usize> = if double {
            Some(bytes[self.pos + 1] as usize)
        } else {
            None
        };
        let ev = MidiEvent {
            event_type: self.running_status.unwrap(),
            system_event_type: None,
            meta_event_type: None,
            time: self.time,
            channel: self.running_channel.unwrap(),
            value1,
            value2,
        };
        self.pos = self.pos + need;
        Ok(ev)
    }

    /// Decodes one step of the track state machine: delta time, status
    /// resolution (fresh byte or running status), and body dispatch.
    /// Returns `Ok(None)` for the steps that produce no event.  After an
    /// error the state is not meaningful and the track must be
    /// abandoned.
    pub fn next_event(&mut self, bytes: &Vec<u8>) -> (r: Result<Option<MidiEvent>, MidiError>)
        ensures
            spec_next(bytes@, *old(self)) matches Ok(sr) ==> r == Ok::<
                Option<MidiEvent>,
                MidiError,
            >(sr.1) && *final(self) == sr.0,
            spec_next(bytes@, *old(self)) matches Err(e) ==> r == Err::<Option<MidiEvent>, _>(e),
    {
        let (delta, p1) = match read_variable_number(bytes, self.pos) {
            Ok(v) => v,
            Err(e) => {
                return Err(e);
            },
        };
        let time = if delta <= usize::MAX - self.time {
            self.time + delta
        } else {
            usize::MAX
        };
        let n = bytes.len();
        let (status, channel, p2) = match read_status_byte(bytes, p1) {
            Err(e) => {
                return Err(e);
            },
            Ok(Some((s, c))) => {
                proof {
                    assert(p1 < n);
                }
                (s, c, p1 + 1)
            },
            Ok(None) => match (self.running_status, self.running_channel) {
                (Some(s), Some(c)) => (s, c, p1),
                _ => {
                    return Err(MidiError::ProtocolViolationError);
                },
            },
        };
        self.pos = p2;
        self.time = time;
        self.running_status = Some(status);
        self.running_channel = Some(channel);
        self.end_of_track = false;
        match self.get_event_length(status) {
            DataLength::System => {
                match read_system_event(bytes, self.pos, time, status, channel) {
                    Ok((p3, ev, eot)) => {
                        self.pos = p3;
                        self.end_of_track = eot;
                        Ok(ev)
                    },
                    Err(e) => Err(e),
                }
            },
            length => {
                match self.read_data_event(bytes, length) {
                    Ok(ev) => Ok(Some(ev)),
                    Err(e) => Err(e),
                }
            },
        }
    }
}

} // verus!
