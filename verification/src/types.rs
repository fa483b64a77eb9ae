use vstd::prelude::*;

verus! {

/// The eight channel-voice/system event categories, selected by the high
/// nibble of a status byte (nibbles 0x8 through 0xf, in this order).
#[derive(Clone, Copy, Debug, PartialEq, Eq, Structural)]
pub enum MidiEventType {
    NoteOff,
    NoteOn,
    PolyponicKeyPressure,
    ControlChange,
    ProgramChange,
    ChannelPressure,
    PitchBendChange,
    System,
}

/// The sub-type of a `System` status byte, selected by its low nibble.
#[derive(Clone, Copy, Debug, PartialEq, Eq, Structural)]
pub enum MidiSystemEventType {
    SystemExclusive,
    TimeCodeQuaterFrame,
    SongPositionPointer,
    SongSelect,
    TuneRequest,
    EndOfSystemExclusive,
    TimingClock,
    Start,
    Continue,
    Stop,
    ActiveSensing,
    SystemResetOrMeta,
}

/// The recognized meta-event type codes carried inside a
/// `SystemResetOrMeta` message.
#[derive(Clone, Copy, Debug, PartialEq, Eq, Structural)]
pub enum MidiMetaEventType {
    SequenceNumber,
    TextEvent,
    CopyrightNotice,
    SequenceOrTrackName,
    InstrumentName,
    LyricText,
    MarkerText,
    CuePoint,
    MidiChannelPrefixAssignment,
    EndOfTrack,
    TempoSetting,
    SmpteOffset,
    TimeSignature,
    SequencerSpecificEvent,
}

/// Payload arity of a channel-voice event; `System` events have no fixed
/// arity and are dispatched separately.
#[derive(Clone, Copy, Debug, PartialEq, Eq, Structural)]
pub enum DataLength {
    Single,
    Double,
    System,
}

/// The fault kinds a parse can end with.  A failed parse yields no song:
/// faults are detected at the malformed byte and propagated immediately.
#[derive(Clone, Copy, Debug, PartialEq, Eq, Structural)]
pub enum MidiError {
    /// Header or track chunk magic/length mismatch.
    FormatError,
    /// The stream ends while a required fixed-size or variable-length
    /// field is being read.
    TruncatedInputError,
    /// A type nibble does not map to a known event category.
    UnknownEventTypeError,
    /// A meta event with a semantically required size (`TempoSetting`)
    /// declares the wrong size.
    MalformedMetaEventError,
    /// An `EndOfSystemExclusive` marker appears outside an active
    /// system-exclusive skip.
    ProtocolViolationError,
}

/// One decoded event, stamped with the absolute tick time of the track
/// position at which it was read.
#[derive(Clone, Copy, Debug, PartialEq, Eq)]
pub struct MidiEvent {
    pub event_type: MidiEventType,
    /// Present only when `event_type` is `System`.
    pub system_event_type: Option<MidiSystemEventType>,
    /// Present only for meta sub-events.
    pub meta_event_type: Option<MidiMetaEventType>,
    /// Absolute tick count from the start of the track.
    pub time: usize,
    /// Channel 0-15; for `System` events this holds the system-message
    /// type nibble instead of a true channel.
    pub channel: u8,
    pub value1: usize,
    /// Present only for two-data-byte events.
    pub value2: Option<usize>,
}

/// One track: its events in stream order, with non-decreasing times.
#[derive(Clone, Debug, PartialEq)]
pub struct MidiTrack {
    pub events: Vec<MidiEvent>,
    /// Absolute time of the last event, or 0 if the track has fewer
    /// than two events: a deliberate quirk, not a general last-event
    /// rule.
    pub max_time: usize,
}

/// A parsed song: the tracks in file order plus the header fields.
#[derive(Clone, Debug, PartialEq)]
pub struct MidiSong {
    /// Maximum of the tracks' `max_time` values.
    pub max_time: usize,
    /// Time division from the header, stored verbatim (zero-extended).
    pub time_unit: isize,
    pub tracks: Vec<MidiTrack>,
    /// Track count declared by the header.
    pub track_count: usize,
    /// Raw value (microseconds per quarter note) of the first
    /// `TempoSetting` event across tracks in file order, if any.  The
    /// beats-per-minute figure is `60_000_000 / value`; `None` means the
    /// default of 120 beats per minute applies.
    pub tempo: Option<usize>,
}

/// Mathematical model of a track.
pub struct TrackModel {
    pub events: Seq<MidiEvent>,
    pub max_time: usize,
}

/// Mathematical model of a song.
pub struct SongModel {
    pub max_time: usize,
    pub time_unit: isize,
    pub tracks: Seq<TrackModel>,
    pub track_count: usize,
    pub tempo: Option<usize>,
}

impl View for MidiTrack {
    type V = TrackModel;

    open spec fn view(&self) -> TrackModel {
        TrackModel { events: self.events@, max_time: self.max_time }
    }
}

impl View for MidiSong {
    type V = SongModel;

    open spec fn view(&self) -> SongModel {
        SongModel {
            max_time: self.max_time,
            time_unit: self.time_unit,
            tracks: self.tracks@.map_values(|t: MidiTrack| t@),
            track_count: self.track_count,
            tempo: self.tempo,
        }
    }
}

impl MidiTrack {
    /// An empty track.
    pub fn new() -> (r: MidiTrack)
        ensures
            r@.events == Seq::<MidiEvent>::empty(),
            r@.max_time == 0,
    {
        let events: Vec<MidiEvent> = Vec::new();
        MidiTrack { events, max_time: 0 }
    }
}

/// Which event category a status byte's high nibble selects; total over
/// all byte values, `None` for nibbles below 0x8.
pub open spec fn spec_event_type_from_nibble(nibble: u8) -> Option<MidiEventType> {
    if nibble == 0x8 {
        Some(MidiEventType::NoteOff)
    } else if nibble == 0x9 {
        Some(MidiEventType::NoteOn)
    } else if nibble == 0xa {
        Some(MidiEventType::PolyponicKeyPressure)
    } else if nibble == 0xb {
        Some(MidiEventType::ControlChange)
    } else if nibble == 0xc {
        Some(MidiEventType::ProgramChange)
    } else if nibble == 0xd {
        Some(MidiEventType::ChannelPressure)
    } else if nibble == 0xe {
        Some(MidiEventType::PitchBendChange)
    } else if nibble == 0xf {
        Some(MidiEventType::System)
    } else {
        None
    }
}

pub fn event_type_from_nibble(nibble: u8) -> (r: Option<MidiEventType>)
    ensures
        r == spec_event_type_from_nibble(nibble),
{
    if nibble == 0x8 {
        Some(MidiEventType::NoteOff)
    } else if nibble == 0x9 {
        Some(MidiEventType::NoteOn)
    } else if nibble == 0xa {
        Some(MidiEventType::PolyponicKeyPressure)
    } else if nibble == 0xb {
        Some(MidiEventType::ControlChange)
    } else if nibble == 0xc {
        Some(MidiEventType::ProgramChange)
    } else if nibble == 0xd {
        Some(MidiEventType::ChannelPressure)
    } else if nibble == 0xe {
        Some(MidiEventType::PitchBendChange)
    } else if nibble == 0xf {
        Some(MidiEventType::System)
    } else {
        None
    }
}

/// Which system sub-type a `System` status byte's low nibble selects;
/// `None` for the four unassigned nibbles.
pub open spec fn spec_system_type_from_nibble(nibble: u8) -> Option<MidiSystemEventType> {
    if nibble == 0x0 {
        Some(MidiSystemEventType::SystemExclusive)
    } else if nibble == 0x1 {
        Some(MidiSystemEventType::TimeCodeQuaterFrame)
    } else if nibble == 0x2 {
        Some(MidiSystemEventType::SongPositionPointer)
    } else if nibble == 0x3 {
        Some(MidiSystemEventType::SongSelect)
    } else if nibble == 0x6 {
        Some(MidiSystemEventType::TuneRequest)
    } else if nibble == 0x7 {
        Some(MidiSystemEventType::EndOfSystemExclusive)
    } else if nibble == 0x8 {
        Some(MidiSystemEventType::TimingClock)
    } else if nibble == 0xa {
        Some(MidiSystemEventType::Start)
    } else if nibble == 0xb {
        Some(MidiSystemEventType::Continue)
    } else if nibble == 0xc {
        Some(MidiSystemEventType::Stop)
    } else if nibble == 0xe {
        Some(MidiSystemEventType::ActiveSensing)
    } else if nibble == 0xf {
        Some(MidiSystemEventType::SystemResetOrMeta)
    } else {
        None
    }
}

pub fn system_type_from_nibble(nibble: u8) -> (r: Option<MidiSystemEventType>)
    ensures
        r == spec_system_type_from_nibble(nibble),
{
    if nibble == 0x0 {
        Some(MidiSystemEventType::SystemExclusive)
    } else if nibble == 0x1 {
        Some(MidiSystemEventType::TimeCodeQuaterFrame)
    } else if nibble == 0x2 {
        Some(MidiSystemEventType::SongPositionPointer)
    } else if nibble == 0x3 {
        Some(MidiSystemEventType::SongSelect)
    } else if nibble == 0x6 {
        Some(MidiSystemEventType::TuneRequest)
    } else if nibble == 0x7 {
        Some(MidiSystemEventType::EndOfSystemExclusive)
    } else if nibble == 0x8 {
        Some(MidiSystemEventType::TimingClock)
    } else if nibble == 0xa {
        Some(MidiSystemEventType::Start)
    } else if nibble == 0xb {
        Some(MidiSystemEventType::Continue)
    } else if nibble == 0xc {
        Some(MidiSystemEventType::Stop)
    } else if nibble == 0xe {
        Some(MidiSystemEventType::ActiveSensing)
    } else if nibble == 0xf {
        Some(MidiSystemEventType::SystemResetOrMeta)
    } else {
        None
    }
}

/// Which meta-event type a meta type byte selects; `None` for
/// unrecognized codes.
pub open spec fn spec_meta_type_from_byte(byte: u8) -> Option<MidiMetaEventType> {
    if byte == 0x00 {
        Some(MidiMetaEventType::SequenceNumber)
    } else if byte == 0x01 {
        Some(MidiMetaEventType::TextEvent)
    } else if byte == 0x02 {
        Some(MidiMetaEventType::CopyrightNotice)
    } else if byte == 0x03 {
        Some(MidiMetaEventType::SequenceOrTrackName)
    } else if byte == 0x04 {
        Some(MidiMetaEventType::InstrumentName)
    } else if byte == 0x05 {
        Some(MidiMetaEventType::LyricText)
    } else if byte == 0x06 {
        Some(MidiMetaEventType::MarkerText)
    } else if byte == 0x07 {
        Some(MidiMetaEventType::CuePoint)
    } else if byte == 0x20 {
        Some(MidiMetaEventType::MidiChannelPrefixAssignment)
    } else if byte == 0x2f {
        Some(MidiMetaEventType::EndOfTrack)
    } else if byte == 0x51 {
        Some(MidiMetaEventType::TempoSetting)
    } else if byte == 0x54 {
        Some(MidiMetaEventType::SmpteOffset)
    } else if byte == 0x58 {
        Some(MidiMetaEventType::TimeSignature)
    } else if byte == 0x7f {
        Some(MidiMetaEventType::SequencerSpecificEvent)
    } else {
        None
    }
}

pub fn meta_type_from_byte(byte: u8) -> (r: Option<MidiMetaEventType>)
    ensures
        r == spec_meta_type_from_byte(byte),
{
    if byte == 0x00 {
        Some(MidiMetaEventType::SequenceNumber)
    } else if byte == 0x01 {
        Some(MidiMetaEventType::TextEvent)
    } else if byte == 0x02 {
        Some(MidiMetaEventType::CopyrightNotice)
    } else if byte == 0x03 {
        Some(MidiMetaEventType::SequenceOrTrackName)
    } else if byte == 0x04 {
        Some(MidiMetaEventType::InstrumentName)
    } else if byte == 0x05 {
        Some(MidiMetaEventType::LyricText)
    } else if byte == 0x06 {
        Some(MidiMetaEventType::MarkerText)
    } else if byte == 0x07 {
        Some(MidiMetaEventType::CuePoint)
    } else if byte == 0x20 {
        Some(MidiMetaEventType::MidiChannelPrefixAssignment)
    } else if byte == 0x2f {
        Some(MidiMetaEventType::EndOfTrack)
    } else if byte == 0x51 {
        Some(MidiMetaEventType::TempoSetting)
    } else if byte == 0x54 {
        Some(MidiMetaEventType::SmpteOffset)
    } else if byte == 0x58 {
        Some(MidiMetaEventType::TimeSignature)
    } else if byte == 0x7f {
        Some(MidiMetaEventType::SequencerSpecificEvent)
    } else {
        None
    }
}

/// Payload arity of each event category.
pub open spec fn spec_event_length(event_type: MidiEventType) -> DataLength {
    match event_type {
        MidiEventType::NoteOff => DataLength::Double,
        MidiEventType::NoteOn => DataLength::Double,
        MidiEventType::PolyponicKeyPressure => DataLength::Double,
        MidiEventType::ControlChange => DataLength::Double,
        MidiEventType::PitchBendChange => DataLength::Double,
        MidiEventType::ProgramChange => DataLength::Single,
        MidiEventType::ChannelPressure => DataLength::Single,
        MidiEventType::System => DataLength::System,
    }
}

} // verus!
