use midi_reader::events::EventIterator;
use midi_reader::reader::{read_midi, read_midi_header, read_midi_track};
use midi_reader::types::{
    DataLength, MidiError, MidiEventType, MidiMetaEventType, MidiSystemEventType,
    event_type_from_nibble, meta_type_from_byte, system_type_from_nibble,
};
use midi_reader::vlq::{read_u16_be, read_u32_be, read_variable_number};

fn header(track_count: u8, division: u16) -> Vec<u8> {
    let mut bytes = vec![0x4d, 0x54, 0x68, 0x64, 0x00, 0x00, 0x00, 0x06, 0x00, 0x01];
    bytes.push(0x00);
    bytes.push(track_count);
    bytes.push((division / 256) as u8);
    bytes.push((division % 256) as u8);
    bytes
}

fn track(event_bytes: &[u8]) -> Vec<u8> {
    let mut bytes = vec![0x4d, 0x54, 0x72, 0x6b];
    let n = event_bytes.len() as u32;
    bytes.push((n >> 24) as u8);
    bytes.push((n >> 16) as u8);
    bytes.push((n >> 8) as u8);
    bytes.push(n as u8);
    bytes.extend_from_slice(event_bytes);
    bytes
}

const END_OF_TRACK: [u8; 4] = [0x00, 0xff, 0x2f, 0x00];

fn bpm_of(tempo: Option<usize>) -> f64 {
    match tempo {
        Some(value) => 60_000_000.0 / value as f64,
        None => 120.0,
    }
}

#[test]
fn it_parses_a_midi_file() {
    let mut bytes = header(2, 960);
    bytes.extend_from_slice(&track(&END_OF_TRACK));
    let mut events: Vec<u8> = Vec::new();
    events.extend_from_slice(&[0x00, 0xc0, 0x00]); // ProgramChange, channel 0
    events.extend_from_slice(&[0x00, 0x90, 57, 64]); // NoteOn
    events.extend_from_slice(&[0x87, 0x40, 0x80, 57, 0]); // delta 960, NoteOff
    events.extend_from_slice(&END_OF_TRACK);
    bytes.extend_from_slice(&track(&events));

    let song = read_midi(&bytes).ok().expect("failed");

    assert_eq!(song.tracks.len(), 2); // metadata track included
    let messages = &song.tracks[1].events;

    // ProgramChange
    assert_eq!(messages[0].event_type, MidiEventType::ProgramChange);
    assert_eq!(messages[0].time, 0);
    assert_eq!(messages[0].channel, 0);
    assert_eq!(messages[0].value1, 0);
    assert_eq!(messages[0].value2, None);

    // NoteOn
    assert_eq!(messages[1].event_type, MidiEventType::NoteOn);
    assert_eq!(messages[1].time, 0);
    assert_eq!(messages[1].channel, 0);
    assert_eq!(messages[1].value1, 57);
    assert_eq!(messages[1].value2, Some(64));

    // NoteOff
    assert_eq!(messages[2].event_type, MidiEventType::NoteOff);
    assert_eq!(messages[2].time, 960);
    assert_eq!(messages[2].channel, 0);
    assert_eq!(messages[2].value1, 57);
    assert_eq!(messages[2].value2, Some(0));
}

#[test]
fn it_parses_a_midi_file_with_multiple_tracks() {
    let mut bytes = header(3, 96);
    for _ in 0..3 {
        let mut events: Vec<u8> = Vec::new();
        events.extend_from_slice(&[0x00, 0x90, 60, 64]);
        events.extend_from_slice(&END_OF_TRACK);
        bytes.extend_from_slice(&track(&events));
    }
    let song = read_midi(&bytes).ok().expect("failed");
    assert_eq!(song.tracks.len(), 3);
}

#[test]
fn it_parses_a_midi_file_with_running_status() {
    let mut bytes = header(1, 96);
    let mut events: Vec<u8> = Vec::new();
    events.extend_from_slice(&[0x00, 0x90, 57, 64]);
    // delta 5640 followed by two data bytes and no status byte
    events.extend_from_slice(&[0xac, 0x08, 57, 0]);
    events.extend_from_slice(&END_OF_TRACK);
    bytes.extend_from_slice(&track(&events));

    let song = read_midi(&bytes).ok().expect("failed");
    assert_eq!(song.tracks.len(), 1);
    assert_eq!(song.max_time, 5640);
}

#[test]
fn it_parses_the_bpm_of_a_midi_file() {
    let mut bytes = header(1, 96);
    let mut events: Vec<u8> = Vec::new();
    // TempoSetting, 375000 microseconds per quarter note = 160 bpm
    events.extend_from_slice(&[0x00, 0xff, 0x51, 0x03, 0x05, 0xb8, 0xd8]);
    events.extend_from_slice(&END_OF_TRACK);
    bytes.extend_from_slice(&track(&events));

    let song = read_midi(&bytes).ok().expect("failed");
    assert_eq!(bpm_of(song.tempo) as usize, 160);
}

#[test]
fn running_status_decodes_like_explicit_status() {
    let mut implicit = header(1, 96);
    let mut events: Vec<u8> = Vec::new();
    events.extend_from_slice(&[0x00, 0x90, 57, 64]);
    events.extend_from_slice(&[0x81, 0x70, 57, 0]); // delta 240, no status byte
    events.extend_from_slice(&END_OF_TRACK);
    implicit.extend_from_slice(&track(&events));

    let mut explicit = header(1, 96);
    let mut events2: Vec<u8> = Vec::new();
    events2.extend_from_slice(&[0x00, 0x90, 57, 64]);
    events2.extend_from_slice(&[0x81, 0x70, 0x90, 57, 0]); // same, status written out
    events2.extend_from_slice(&END_OF_TRACK);
    explicit.extend_from_slice(&track(&events2));

    let song1 = read_midi(&implicit).ok().expect("failed");
    let song2 = read_midi(&explicit).ok().expect("failed");
    assert_eq!(song1.tracks[0].events, song2.tracks[0].events);
    assert_eq!(song1.tracks[0].events.len(), 2);
    assert_eq!(song1.tracks[0].events[1].event_type, MidiEventType::NoteOn);
    assert_eq!(song1.tracks[0].events[1].channel, 0);
    assert_eq!(song1.tracks[0].events[1].time, 240);
    assert_eq!(song1.tracks[0].events[1].value1, 57);
    assert_eq!(song1.tracks[0].events[1].value2, Some(0));
}

#[test]
fn sysex_payload_is_skipped_without_events() {
    let mut bytes = header(1, 96);
    let mut events: Vec<u8> = Vec::new();
    // SystemExclusive, three payload bytes, then the terminator nibble
    events.extend_from_slice(&[0x00, 0xf0, 0x01, 0x02, 0x03, 0xf7]);
    events.extend_from_slice(&[0x00, 0x90, 57, 64]);
    events.extend_from_slice(&END_OF_TRACK);
    bytes.extend_from_slice(&track(&events));

    let song = read_midi(&bytes).ok().expect("failed");
    assert_eq!(song.tracks[0].events.len(), 1);
    assert_eq!(song.tracks[0].events[0].event_type, MidiEventType::NoteOn);
}

#[test]
fn tempo_event_sets_inferred_tempo() {
    let mut bytes = header(1, 96);
    let mut events: Vec<u8> = Vec::new();
    events.extend_from_slice(&[0x00, 0xff, 0x51, 0x03, 0x07, 0xa1, 0x20]); // 500000
    events.extend_from_slice(&END_OF_TRACK);
    bytes.extend_from_slice(&track(&events));

    let song = read_midi(&bytes).ok().expect("failed");
    assert_eq!(song.tempo, Some(500000));
    assert_eq!(bpm_of(song.tempo), 120.0);

    // the tempo event itself is kept as an event
    assert_eq!(song.tracks[0].events.len(), 1);
    assert_eq!(
        song.tracks[0].events[0].meta_event_type,
        Some(MidiMetaEventType::TempoSetting)
    );
    assert_eq!(song.tracks[0].events[0].value1, 500000);
}

#[test]
fn missing_tempo_event_leaves_the_default() {
    let mut bytes = header(1, 96);
    let mut events: Vec<u8> = Vec::new();
    events.extend_from_slice(&[0x00, 0x90, 57, 64]);
    events.extend_from_slice(&END_OF_TRACK);
    bytes.extend_from_slice(&track(&events));

    let song = read_midi(&bytes).ok().expect("failed");
    assert_eq!(song.tempo, None); // default path, not an inferred 120
    assert_eq!(bpm_of(song.tempo), 120.0);
}

#[test]
fn first_tempo_in_file_order_wins() {
    let mut bytes = header(2, 96);
    let mut events1: Vec<u8> = Vec::new();
    events1.extend_from_slice(&[0x00, 0xff, 0x51, 0x03, 0x07, 0xa1, 0x20]); // 500000
    events1.extend_from_slice(&END_OF_TRACK);
    bytes.extend_from_slice(&track(&events1));
    let mut events2: Vec<u8> = Vec::new();
    events2.extend_from_slice(&[0x00, 0xff, 0x51, 0x03, 0x05, 0xb8, 0xd8]); // 375000
    events2.extend_from_slice(&END_OF_TRACK);
    bytes.extend_from_slice(&track(&events2));

    let song = read_midi(&bytes).ok().expect("failed");
    assert_eq!(song.tempo, Some(500000));
}

#[test]
fn wrong_header_magic_is_a_format_error() {
    let mut bytes = header(1, 96);
    bytes[3] = 0x65; // not MThd
    bytes.extend_from_slice(&track(&END_OF_TRACK));
    assert_eq!(read_midi(&bytes), Err(MidiError::FormatError));
}

#[test]
fn wrong_header_length_is_a_format_error() {
    let mut bytes = header(1, 96);
    bytes[7] = 0x07; // header length must be 6
    bytes.extend_from_slice(&track(&END_OF_TRACK));
    assert_eq!(read_midi(&bytes), Err(MidiError::FormatError));
}

#[test]
fn wrong_track_magic_is_a_format_error() {
    let mut bytes = header(1, 96);
    let mut chunk = track(&END_OF_TRACK);
    chunk[3] = 0x6c; // not MTrk
    bytes.extend_from_slice(&chunk);
    assert_eq!(read_midi(&bytes), Err(MidiError::FormatError));
}

#[test]
fn tempo_event_with_wrong_size_is_malformed() {
    let mut bytes = header(1, 96);
    let mut events: Vec<u8> = Vec::new();
    events.extend_from_slice(&[0x00, 0xff, 0x51, 0x02, 0x07, 0xa1]); // size 2, not 3
    events.extend_from_slice(&END_OF_TRACK);
    bytes.extend_from_slice(&track(&events));
    assert_eq!(read_midi(&bytes), Err(MidiError::MalformedMetaEventError));
}

#[test]
fn truncated_header_is_rejected() {
    let bytes = vec![0x4d, 0x54, 0x68, 0x64, 0x00, 0x00, 0x00, 0x06, 0x00];
    assert_eq!(read_midi(&bytes), Err(MidiError::TruncatedInputError));
}

#[test]
fn truncated_event_payload_is_rejected() {
    let mut bytes = header(1, 96);
    bytes.extend_from_slice(&track(&[0x00, 0x90, 57])); // NoteOn missing a byte
    assert_eq!(read_midi(&bytes), Err(MidiError::TruncatedInputError));
}

#[test]
fn truncated_sysex_is_rejected() {
    let mut bytes = header(1, 96);
    bytes.extend_from_slice(&track(&[0x00, 0xf0, 0x01, 0x02])); // no terminator
    assert_eq!(read_midi(&bytes), Err(MidiError::TruncatedInputError));
}

#[test]
fn unknown_system_nibble_is_rejected() {
    let mut bytes = header(1, 96);
    bytes.extend_from_slice(&track(&[0x00, 0xf4])); // 0x4 maps to no system type
    assert_eq!(read_midi(&bytes), Err(MidiError::UnknownEventTypeError));
}

#[test]
fn end_of_sysex_outside_sysex_is_a_protocol_violation() {
    let mut bytes = header(1, 96);
    bytes.extend_from_slice(&track(&[0x00, 0xf7]));
    assert_eq!(read_midi(&bytes), Err(MidiError::ProtocolViolationError));
}

#[test]
fn data_byte_before_any_status_is_a_protocol_violation() {
    let mut bytes = header(1, 96);
    bytes.extend_from_slice(&track(&[0x00, 0x40, 0x40]));
    assert_eq!(read_midi(&bytes), Err(MidiError::ProtocolViolationError));
}

#[test]
fn track_without_end_of_track_ends_at_stream_end() {
    let mut bytes = header(1, 96);
    bytes.extend_from_slice(&track(&[0x00, 0x90, 57, 64]));
    let song = read_midi(&bytes).ok().expect("failed");
    assert_eq!(song.tracks[0].events.len(), 1);
}

#[test]
fn track_with_one_event_has_max_time_zero() {
    // a deliberate quirk: fewer than two events means max_time is 0
    let mut bytes = header(1, 96);
    let mut events: Vec<u8> = Vec::new();
    events.extend_from_slice(&[0x64, 0x90, 60, 64]); // one event at time 100
    events.extend_from_slice(&END_OF_TRACK);
    bytes.extend_from_slice(&track(&events));
    let song = read_midi(&bytes).ok().expect("failed");
    assert_eq!(song.tracks[0].events[0].time, 100);
    assert_eq!(song.tracks[0].max_time, 0);
    assert_eq!(song.max_time, 0);
}

#[test]
fn times_are_non_decreasing() {
    let mut bytes = header(1, 96);
    let mut events: Vec<u8> = Vec::new();
    events.extend_from_slice(&[0x05, 0x90, 57, 64]);
    events.extend_from_slice(&[0x00, 0x80, 57, 0]);
    events.extend_from_slice(&[0x81, 0x00, 0x90, 58, 64]); // delta 128
    events.extend_from_slice(&[0x10, 0x80, 58, 0]);
    events.extend_from_slice(&END_OF_TRACK);
    bytes.extend_from_slice(&track(&events));
    let song = read_midi(&bytes).ok().expect("failed");
    let times: Vec<usize> = song.tracks[0].events.iter().map(|e| e.time).collect();
    assert_eq!(times, vec![5, 5, 133, 149]);
    for w in times.windows(2) {
        assert!(w[0] <= w[1]);
    }
}

#[test]
fn track_count_matches_header_declaration() {
    for n in 1..4u8 {
        let mut bytes = header(n, 96);
        for _ in 0..n {
            bytes.extend_from_slice(&track(&END_OF_TRACK));
        }
        let song = read_midi(&bytes).ok().expect("failed");
        assert_eq!(song.tracks.len(), song.track_count);
        assert_eq!(song.track_count, n as usize);
    }
}

#[test]
fn song_position_pointer_skips_two_bytes() {
    let mut bytes = header(1, 96);
    let mut events: Vec<u8> = Vec::new();
    events.extend_from_slice(&[0x00, 0xf2, 0x10, 0x20]); // SongPositionPointer
    events.extend_from_slice(&[0x00, 0x90, 57, 64]);
    events.extend_from_slice(&END_OF_TRACK);
    bytes.extend_from_slice(&track(&events));
    let song = read_midi(&bytes).ok().expect("failed");
    assert_eq!(song.tracks[0].events.len(), 1);
    assert_eq!(song.tracks[0].events[0].event_type, MidiEventType::NoteOn);
}

#[test]
fn zero_payload_system_messages_produce_no_event() {
    let mut bytes = header(1, 96);
    let mut events: Vec<u8> = Vec::new();
    events.extend_from_slice(&[0x00, 0xf8]); // TimingClock
    events.extend_from_slice(&[0x00, 0xfe]); // ActiveSensing
    events.extend_from_slice(&[0x00, 0x90, 57, 64]);
    events.extend_from_slice(&END_OF_TRACK);
    bytes.extend_from_slice(&track(&events));
    let song = read_midi(&bytes).ok().expect("failed");
    assert_eq!(song.tracks[0].events.len(), 1);
}

#[test]
fn unrecognized_meta_events_are_skipped() {
    let mut bytes = header(1, 96);
    let mut events: Vec<u8> = Vec::new();
    // SequenceOrTrackName, size 4
    events.extend_from_slice(&[0x00, 0xff, 0x03, 0x04, 0x61, 0x62, 0x63, 0x64]);
    events.extend_from_slice(&[0x00, 0x90, 57, 64]);
    events.extend_from_slice(&END_OF_TRACK);
    bytes.extend_from_slice(&track(&events));
    let song = read_midi(&bytes).ok().expect("failed");
    assert_eq!(song.tracks[0].events.len(), 1);
}

#[test]
fn read_variable_number_decodes_base_128() {
    assert_eq!(read_variable_number(&vec![0x00], 0), Ok((0, 1)));
    assert_eq!(read_variable_number(&vec![0x40], 0), Ok((64, 1)));
    assert_eq!(read_variable_number(&vec![0x7f], 0), Ok((127, 1)));
    assert_eq!(read_variable_number(&vec![0x81, 0x00], 0), Ok((128, 2)));
    assert_eq!(read_variable_number(&vec![0x87, 0x68], 0), Ok((1000, 2)));
    assert_eq!(
        read_variable_number(&vec![0xff, 0xff, 0xff, 0x7f], 0),
        Ok((0x0fffffff, 4))
    );
    assert_eq!(
        read_variable_number(&vec![0x90, 0x87, 0x40], 1),
        Ok((960, 3))
    );
    assert_eq!(
        read_variable_number(&vec![0x80, 0x80], 0),
        Err(MidiError::TruncatedInputError)
    );
    assert_eq!(
        read_variable_number(&vec![], 0),
        Err(MidiError::TruncatedInputError)
    );
}

#[test]
fn big_endian_readers_decode_exactly() {
    assert_eq!(read_u16_be(&vec![0x03, 0xc0], 0), Ok((960, 2)));
    assert_eq!(
        read_u32_be(&vec![0x4d, 0x54, 0x68, 0x64], 0),
        Ok((0x4d546864, 4))
    );
    assert_eq!(
        read_u16_be(&vec![0x03], 0),
        Err(MidiError::TruncatedInputError)
    );
    assert_eq!(
        read_u32_be(&vec![0x01, 0x02, 0x03], 0),
        Err(MidiError::TruncatedInputError)
    );
}

#[test]
fn nibble_mappings_are_total() {
    assert_eq!(event_type_from_nibble(0x8), Some(MidiEventType::NoteOff));
    assert_eq!(event_type_from_nibble(0x9), Some(MidiEventType::NoteOn));
    assert_eq!(event_type_from_nibble(0xc), Some(MidiEventType::ProgramChange));
    assert_eq!(event_type_from_nibble(0xf), Some(MidiEventType::System));
    assert_eq!(event_type_from_nibble(0x7), None);
    assert_eq!(event_type_from_nibble(0x0), None);
    assert_eq!(
        system_type_from_nibble(0x0),
        Some(MidiSystemEventType::SystemExclusive)
    );
    assert_eq!(
        system_type_from_nibble(0x7),
        Some(MidiSystemEventType::EndOfSystemExclusive)
    );
    assert_eq!(
        system_type_from_nibble(0xf),
        Some(MidiSystemEventType::SystemResetOrMeta)
    );
    assert_eq!(system_type_from_nibble(0x4), None);
    assert_eq!(system_type_from_nibble(0x9), None);
    assert_eq!(
        meta_type_from_byte(0x2f),
        Some(MidiMetaEventType::EndOfTrack)
    );
    assert_eq!(
        meta_type_from_byte(0x51),
        Some(MidiMetaEventType::TempoSetting)
    );
    assert_eq!(meta_type_from_byte(0x22), None);
}

#[test]
fn header_parser_reads_the_declared_fields() {
    let bytes = header(7, 960);
    let song = read_midi_header(&bytes).ok().expect("failed");
    assert_eq!(song.track_count, 7);
    assert_eq!(song.time_unit, 960);
    assert_eq!(song.tracks.len(), 0);
    assert_eq!(song.max_time, 0);
    assert_eq!(song.tempo, None);
}

#[test]
fn track_parser_reports_the_next_position() {
    let mut bytes = header(1, 96);
    let chunk = track(&END_OF_TRACK);
    bytes.extend_from_slice(&chunk);
    let (parsed, next) = read_midi_track(&bytes, 14).ok().expect("failed");
    assert_eq!(parsed.events.len(), 0);
    assert_eq!(parsed.max_time, 0);
    assert_eq!(next, bytes.len());
}

#[test]
fn event_iterator_steps_through_a_track() {
    // raw event stream, as it appears after a track chunk header
    let bytes = vec![0x00, 0x90, 57, 64, 0x10, 0xc1, 0x05, 0x00, 0xff, 0x2f, 0x00];
    let mut iter = EventIterator::new(0);
    let first = iter.next_event(&bytes).ok().expect("failed");
    let first = first.expect("expected an event");
    assert_eq!(first.event_type, MidiEventType::NoteOn);
    assert_eq!(first.time, 0);
    assert_eq!(first.value1, 57);
    let second = iter.next_event(&bytes).ok().expect("failed");
    let second = second.expect("expected an event");
    assert_eq!(second.event_type, MidiEventType::ProgramChange);
    assert_eq!(second.channel, 1);
    assert_eq!(second.time, 16);
    assert_eq!(second.value1, 5);
    assert_eq!(second.value2, None);
    let third = iter.next_event(&bytes).ok().expect("failed");
    assert!(third.is_none());
    assert!(iter.end_of_track);
}

#[test]
fn event_length_table_matches_the_format() {
    let iter = EventIterator::new(0);
    assert_eq!(iter.get_event_length(MidiEventType::NoteOff), DataLength::Double);
    assert_eq!(iter.get_event_length(MidiEventType::NoteOn), DataLength::Double);
    assert_eq!(
        iter.get_event_length(MidiEventType::PolyponicKeyPressure),
        DataLength::Double
    );
    assert_eq!(
        iter.get_event_length(MidiEventType::ControlChange),
        DataLength::Double
    );
    assert_eq!(
        iter.get_event_length(MidiEventType::PitchBendChange),
        DataLength::Double
    );
    assert_eq!(
        iter.get_event_length(MidiEventType::ProgramChange),
        DataLength::Single
    );
    assert_eq!(
        iter.get_event_length(MidiEventType::ChannelPressure),
        DataLength::Single
    );
    assert_eq!(iter.get_event_length(MidiEventType::System), DataLength::System);
}

#[test]
fn new_track_is_empty() {
    let track = midi_reader::types::MidiTrack::new();
    assert_eq!(track.events.len(), 0);
    assert_eq!(track.max_time, 0);
}

#[test]
fn data_event_uses_the_remembered_status() {
    let mut iter = EventIterator::new(0);
    iter.running_status = Some(MidiEventType::NoteOn);
    iter.running_channel = Some(3);
    iter.time = 7;
    let bytes = vec![60u8, 100u8];
    let ev = iter
        .read_data_event(&bytes, DataLength::Double)
        .ok()
        .expect("failed");
    assert_eq!(ev.event_type, MidiEventType::NoteOn);
    assert_eq!(ev.channel, 3);
    assert_eq!(ev.time, 7);
    assert_eq!(ev.value1, 60);
    assert_eq!(ev.value2, Some(100));
    assert_eq!(iter.pos, 2);
}

#[test]
fn empty_input_is_truncated() {
    let bytes: Vec<u8> = Vec::new();
    assert_eq!(read_midi(&bytes), Err(MidiError::TruncatedInputError));
}
