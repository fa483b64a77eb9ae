use vstd::prelude::*;

use crate::events::{
    EventIterator, initial_iterator, lemma_next_props, spec_next,
};
use crate::types::{
    MidiError, MidiEvent, MidiMetaEventType, MidiSong, MidiTrack, SongModel, TrackModel,
};
use crate::vlq::{be16, be32, read_u16_be, read_u32_be};

verus! {

/// The events decoded from state `st` until an `EndOfTrack` meta event
/// or the end of the stream, together with the final state.  Stream
/// exhaustion at an event boundary is an implicit end of track;
/// exhaustion inside a field is a fault.
///
/// Every step consumes at least one byte (`lemma_next_props`); the
/// guard on `st2.pos` below is never taken and only justifies the
/// termination of this definition.
#[verifier::opaque]
pub open spec fn spec_track_events(bytes: Seq<u8>, st: EventIterator) -> Result<
    (Seq<MidiEvent>, EventIterator),
    MidiError,
>
    decreases bytes.len() - st.pos,
{
    if st.end_of_track || st.pos >= bytes.len() {
        Ok((Seq::empty(), st))
    } else {
        match spec_next(bytes, st) {
            Err(e) => Err(e),
            Ok((st2, ev)) => {
                if st2.pos <= st.pos || st2.pos > bytes.len() {
                    Err(MidiError::TruncatedInputError)
                } else {
                    match spec_track_events(bytes, st2) {
                        Err(e) => Err(e),
                        Ok((evs, fin)) => Ok(
                            (
                                match ev {
                                    Some(e0) => seq![e0] + evs,
                                    None => evs,
                                },
                                fin,
                            ),
                        ),
                    }
                }
            },
        }
    }
}

/// A state at an `EndOfTrack` flag or at the end of the stream decodes
/// to no further events.
pub proof fn lemma_track_events_terminal(bytes: Seq<u8>, st: EventIterator)
    requires
        st.end_of_track || st.pos >= bytes.len(),
    ensures
        spec_track_events(bytes, st) == Ok::<(Seq<MidiEvent>, EventIterator), MidiError>(
            (Seq::empty(), st),
        ),
{
    reveal(spec_track_events);
}

/// Unfolds one step of a track decode: the step's error is the track's
/// error, and a successful step contributes its event, if any, in front
/// of the rest.
pub proof fn lemma_track_events_step(bytes: Seq<u8>, st: EventIterator)
    requires
        !st.end_of_track,
        st.pos < bytes.len(),
        bytes.len() <= usize::MAX,
    ensures
        spec_next(bytes, st) matches Err(e) ==> spec_track_events(bytes, st) == Err::<
            (Seq<MidiEvent>, EventIterator),
            MidiError,
        >(e),
        spec_next(bytes, st) matches Ok(sr) ==> match spec_track_events(bytes, sr.0) {
            Err(e) => spec_track_events(bytes, st) == Err::<
                (Seq<MidiEvent>, EventIterator),
                MidiError,
            >(e),
            Ok((evs, fin)) => spec_track_events(bytes, st) == Ok::<
                (Seq<MidiEvent>, EventIterator),
                MidiError,
            >(
                (
                    match sr.1 {
                        Some(e0) => seq![e0] + evs,
                        None => evs,
                    },
                    fin,
                ),
            ),
        },
{
    reveal(spec_track_events);
    if spec_next(bytes, st) is Ok {
        lemma_next_props(bytes, st);
    }
}

/// One track chunk at `pos`: the `MTrk` magic, a declared chunk size
/// (read but deliberately not enforced against the bytes consumed),
/// then the events.  The track's `max_time` is the last event's time,
/// or 0 for a track with fewer than two events.
pub open spec fn spec_read_track(bytes: Seq<u8>, pos: int) -> Result<
    (TrackModel, int),
    MidiError,
> {
    if pos + 4 > bytes.len() {
        Err(MidiError::TruncatedInputError)
    } else if be32(bytes, pos) != 0x4d54726b {
        Err(MidiError::FormatError)
    } else if pos + 8 > bytes.len() {
        Err(MidiError::TruncatedInputError)
    } else {
        match spec_track_events(bytes, initial_iterator((pos + 8) as usize)) {
            Err(e) => Err(e),
            Ok((evs, fin)) => Ok(
                (
                    TrackModel {
                        events: evs,
                        max_time: if evs.len() > 1 {
                            evs.last().time
                        } else {
                            0
                        },
                    },
                    fin.pos as int,
                ),
            ),
        }
    }
}

/// The file header: the `MThd` magic, a chunk length that must be 6,
/// then format (read and discarded), track count and time division.
/// Yields the track count, the time unit and the position after the
/// header.
pub open spec fn spec_read_header(bytes: Seq<u8>) -> Result<(usize, isize, int), MidiError> {
    if bytes.len() < 4 {
        Err(MidiError::TruncatedInputError)
    } else if be32(bytes, 0) != 0x4d546864 {
        Err(MidiError::FormatError)
    } else if bytes.len() < 8 {
        Err(MidiError::TruncatedInputError)
    } else if be32(bytes, 4) != 6 {
        Err(MidiError::FormatError)
    } else if bytes.len() < 14 {
        Err(MidiError::TruncatedInputError)
    } else {
        Ok((be16(bytes, 10) as usize, be16(bytes, 12) as isize, 14))
    }
}

/// `n` consecutive track chunks starting at `pos`, in file order.
pub open spec fn spec_read_tracks(bytes: Seq<u8>, pos: int, n: nat) -> Result<
    (Seq<TrackModel>, int),
    MidiError,
>
    decreases n,
{
    if n == 0 {
        Ok((Seq::empty(), pos))
    } else {
        match spec_read_track(bytes, pos) {
            Err(e) => Err(e),
            Ok((tm, p2)) => match spec_read_tracks(bytes, p2, (n - 1) as nat) {
                Err(e) => Err(e),
                Ok((rest, fin)) => Ok((seq![tm] + rest, fin)),
            },
        }
    }
}

/// Maximum of the tracks' `max_time` values, 0 for no tracks.
pub open spec fn tracks_max_time(tracks: Seq<TrackModel>) -> usize
    decreases tracks.len(),
{
    if tracks.len() == 0 {
        0
    } else {
        let rest = tracks_max_time(tracks.drop_last());
        if tracks.last().max_time > rest {
            tracks.last().max_time
        } else {
            rest
        }
    }
}

/// Raw value of the first `TempoSetting` event of one track, if any.
pub open spec fn track_first_tempo(events: Seq<MidiEvent>) -> Option<usize>
    decreases events.len(),
{
    if events.len() == 0 {
        None
    } else if events.first().meta_event_type == Some(MidiMetaEventType::TempoSetting) {
        Some(events.first().value1)
    } else {
        track_first_tempo(events.drop_first())
    }
}

/// Raw value of the first `TempoSetting` event across tracks in file
/// order, if any: the one tempo a song adopts.
pub open spec fn song_first_tempo(tracks: Seq<TrackModel>) -> Option<usize>
    decreases tracks.len(),
{
    if tracks.len() == 0 {
        None
    } else {
        match track_first_tempo(tracks.first().events) {
            Some(v) => Some(v),
            None => song_first_tempo(tracks.drop_first()),
        }
    }
}

/// The whole parse: header, then as many tracks as the header declares,
/// then the derived song fields.
pub open spec fn spec_parse(bytes: Seq<u8>) -> Result<SongModel, MidiError> {
    match spec_read_header(bytes) {
        Err(e) => Err(e),
        Ok(h) => match spec_read_tracks(bytes, h.2, h.0 as nat) {
            Err(e) => Err(e),
            Ok((tracks, _fin)) => Ok(
                SongModel {
                    max_time: tracks_max_time(tracks),
                    time_unit: h.1,
                    tracks,
                    track_count: h.0,
                    tempo: song_first_tempo(tracks),
                },
            ),
        },
    }
}

/// Parses the file header into an empty song carrying the declared
/// track count and time unit.
pub fn read_midi_header(bytes: &Vec<u8>) -> (r: Result<MidiSong, MidiError>)
    ensures
        spec_read_header(bytes@) matches Ok(h) ==> {
            &&& r matches Ok(song)
            &&& song.track_count == h.0
            &&& song.time_unit == h.1
            &&& song.tracks@ =~= Seq::<MidiTrack>::empty()
            &&& song.max_time == 0
            &&& song.tempo is None
        },
        spec_read_header(bytes@) matches Err(e) ==> r == Err::<MidiSong, _>(e),
{
    let (magic, p1) = match read_u32_be(bytes, 0) {
        Ok(v) => v,
        Err(e) => {
            return Err(e);
        },
    };
    if magic != 0x4d546864 {
        return Err(MidiError::FormatError);
    }
    let (header_length, p2) = match read_u32_be(bytes, p1) {
        Ok(v) => v,
        Err(e) => {
            return Err(e);
        },
    };
    if header_length != 6 {
        return Err(MidiError::FormatError);
    }
    let (_file_format, p3) = match read_u16_be(bytes, p2) {
        Ok(v) => v,
        Err(e) => {
            return Err(e);
        },
    };
    let (track_count, p4) = match read_u16_be(bytes, p3) {
        Ok(v) => v,
        Err(e) => {
            return Err(e);
        },
    };
    let (time_division, _p5) = match read_u16_be(bytes, p4) {
        Ok(v) => v,
        Err(e) => {
            return Err(e);
        },
    };
    Ok(
        MidiSong {
            max_time: 0,
            time_unit: time_division as isize,
            tracks: Vec::new(),
            track_count: track_count as usize,
            tempo: None,
        },
    )
}

/// Parses one track chunk at `pos`: checks the `MTrk` magic, reads the
/// declared chunk size, then drives the event state machine until an
/// `EndOfTrack` meta event or the end of the stream.
#[verifier::rlimit(100)]
#[verifier::loop_isolation(false)]
pub fn read_midi_track(bytes: &Vec<u8>, pos: usize) -> (r: Result<(MidiTrack, usize), MidiError>)
    ensures
        spec_read_track(bytes@, pos as int) matches Ok(t) ==> {
            &&& r matches Ok(v)
            &&& v.0@ == t.0
            &&& v.1 as int == t.1
        },
        spec_read_track(bytes@, pos as int) matches Err(e) ==> r == Err::<
            (MidiTrack, usize),
            _,
        >(e),
{
    let (magic, p1) = match read_u32_be(bytes, pos) {
        Ok(v) => v,
        Err(e) => {
            return Err(e);
        },
    };
    if magic != 0x4d54726b {
        return Err(MidiError::FormatError);
    }
    let (_track_chunk_size, p2) = match read_u32_be(bytes, p1) {
        Ok(v) => v,
        Err(e) => {
            return Err(e);
        },
    };
    let mut iter = EventIterator::new(p2);
    let mut events: Vec<MidiEvent> = Vec::new();
    let n = bytes.len();
    let ghost start = initial_iterator(p2);
    while !iter.end_of_track && iter.pos < bytes.len()
        invariant
            iter.pos <= bytes@.len() <= usize::MAX,
            match spec_track_events(bytes@, start) {
                Ok(t) => spec_track_events(bytes@, iter) matches Ok(u) && t.0 == events@ + u.0
                    && t.1 == u.1,
                Err(e) => spec_track_events(bytes@, iter) == Err::<
                    (Seq<MidiEvent>, EventIterator),
                    MidiError,
                >(e),
            },
        decreases bytes@.len() - iter.pos,
    {
        let ghost prev = iter;
        match iter.next_event(bytes) {
            Err(e) => {
                proof {
                    lemma_track_events_step(bytes@, prev);
                }
                return Err(e);
            },
            Ok(opt) => {
                proof {
                    lemma_next_props(bytes@, prev);
                    lemma_track_events_step(bytes@, prev);
                }
                match opt {
                    Some(ev) => {
                        let ghost old_events = events@;
                        events.push(ev);
                        proof {
                            let u2 = spec_track_events(bytes@, iter)->Ok_0;
                            if spec_track_events(bytes@, start) is Ok {
                                assert((old_events + (seq![ev] + u2.0)) =~= (old_events + seq![ev])
                                    + u2.0);
                            }
                        }
                    },
                    None => {
                    },
                }
            },
        }
    }
    let max_time: usize = if events.len() > 1 {
        events[events.len() - 1].time
    } else {
        0
    };
    let track = MidiTrack { events, max_time };
    proof {
        lemma_track_events_terminal(bytes@, iter);
        if spec_track_events(bytes@, start) is Ok {
            let t = spec_track_events(bytes@, start)->Ok_0;
            assert(t.0 =~= track.events@);
        }
    }
    Ok((track, iter.pos))
}

/// Parses a whole file: the header, then the declared number of tracks,
/// then the song's overall duration and the first tempo found.
#[verifier::rlimit(100)]
pub fn read_midi(bytes: &Vec<u8>) -> (r: Result<MidiSong, MidiError>)
    ensures
        spec_parse(bytes@) matches Ok(m) ==> r matches Ok(song) && song@ == m,
        spec_parse(bytes@) matches Err(e) ==> r == Err::<MidiSong, _>(e),
        r matches Ok(song) ==> song.tracks@.len() == song.track_count,
        r matches Ok(song) ==> forall|t: int|
            0 <= t < song.tracks@.len() ==> crate::laws::events_sorted(
                #[trigger] song.tracks@[t]@.events,
            ),
{
    let mut song = match read_midi_header(bytes) {
        Ok(s) => s,
        Err(e) => {
            return Err(e);
        },
    };
    let ghost h = spec_read_header(bytes@)->Ok_0;
    let mut pos: usize = 14;
    let mut i: usize = 0;
    proof {
        assert(song.tracks@.map_values(|tr: MidiTrack| tr@) =~= Seq::<TrackModel>::empty());
        if spec_read_tracks(bytes@, h.2, h.0 as nat) is Ok {
            let t0: Seq<TrackModel> = spec_read_tracks(bytes@, h.2, h.0 as nat)->Ok_0.0;
            assert(Seq::<TrackModel>::empty() + t0 =~= t0);
        }
    }
    while i < song.track_count
        invariant
            i <= song.track_count,
            song.tracks@.len() == i,
            song.track_count == h.0,
            song.time_unit == h.1,
            song.max_time == 0,
            song.tempo is None,
            spec_read_header(bytes@) == Ok::<(usize, isize, int), MidiError>(h),
            match spec_read_tracks(bytes@, h.2, h.0 as nat) {
                Ok(t) => spec_read_tracks(bytes@, pos as int, (song.track_count - i) as nat)
                    matches Ok(u) && t.0 == song.tracks@.map_values(|tr: MidiTrack| tr@) + u.0
                    && t.1 == u.1,
                Err(e) => spec_read_tracks(bytes@, pos as int, (song.track_count - i) as nat)
                    == Err::<(Seq<TrackModel>, int), MidiError>(e),
            },
        decreases song.track_count - i,
    {
        match read_midi_track(bytes, pos) {
            Err(e) => {
                return Err(e);
            },
            Ok((track, p2)) => {
                let ghost old_tracks = song.tracks@;
                song.tracks.push(track);
                pos = p2;
                i = i + 1;
                proof {
                    assert(song.tracks@.map_values(|tr: MidiTrack| tr@) =~= old_tracks.map_values(
                        |tr: MidiTrack| tr@,
                    ) + seq![track@]);
                    if spec_read_tracks(bytes@, h.2, h.0 as nat) is Ok {
                        let u2 = spec_read_tracks(
                            bytes@,
                            pos as int,
                            (song.track_count - i) as nat,
                        )->Ok_0;
                        assert((old_tracks.map_values(|tr: MidiTrack| tr@) + (seq![track@] + u2.0))
                            =~= (old_tracks.map_values(|tr: MidiTrack| tr@) + seq![track@]) + u2.0);
                    }
                }
            },
        }
    }
    let ghost models = song.tracks@.map_values(|tr: MidiTrack| tr@);
    let stream_len = bytes.len();
    proof {
        assert(bytes@.len() == stream_len);
        if spec_read_tracks(bytes@, h.2, h.0 as nat) is Ok {
            assert(spec_read_tracks(bytes@, h.2, h.0 as nat)->Ok_0.0 =~= models);
            crate::laws::lemma_read_tracks_props(bytes@, h.2, h.0 as nat);
            assert forall|t: int| 0 <= t < song.tracks@.len() implies crate::laws::events_sorted(
                #[trigger] song.tracks@[t]@.events,
            ) by {
                assert(models[t] == song.tracks@[t]@);
                assert(crate::laws::events_sorted(
                    spec_read_tracks(bytes@, h.2, h.0 as nat)->Ok_0.0[t].events,
                ));
            }
        }
    }
    // overall duration: the maximum of the tracks' last-event times
    let mut max_time: usize = 0;
    let mut j: usize = 0;
    while j < song.tracks.len()
        invariant
            j <= song.tracks@.len(),
            models == song.tracks@.map_values(|tr: MidiTrack| tr@),
            max_time == tracks_max_time(models.take(j as int)),
        decreases song.tracks@.len() - j,
    {
        let track_max = song.tracks[j].max_time;
        proof {
            assert(models.take(j + 1).drop_last() =~= models.take(j as int));
            assert(models.take(j + 1).last() == models[j as int]);
        }
        if track_max > max_time {
            max_time = track_max;
        }
        j = j + 1;
    }
    proof {
        assert(models.take(models.len() as int) =~= models);
    }
    song.max_time = max_time;
    // adopt the first TempoSetting event, scanning tracks in file order
    let mut tempo: Option<usize> = None;
    let mut ti: usize = 0;
    while ti < song.tracks.len() && tempo.is_none()
        invariant
            ti <= song.tracks@.len(),
            models == song.tracks@.map_values(|tr: MidiTrack| tr@),
            tempo is None ==> song_first_tempo(models) == song_first_tempo(
                models.skip(ti as int),
            ),
            tempo matches Some(v) ==> song_first_tempo(models) == Some(v),
        decreases song.tracks@.len() - ti,
    {
        let track = &song.tracks[ti];
        let ghost evs = track.events@;
        proof {
            assert(evs.skip(0) =~= evs);
        }
        let mut ej: usize = 0;
        while ej < track.events.len() && tempo.is_none()
            invariant
                ej <= evs.len(),
                evs == track.events@,
                tempo is None ==> track_first_tempo(evs) == track_first_tempo(
                    evs.skip(ej as int),
                ),
                tempo matches Some(v) ==> track_first_tempo(evs) == Some(v),
            decreases evs.len() - ej,
        {
            let ev = track.events[ej];
            proof {
                assert(evs.skip(ej as int).first() == evs[ej as int]);
                assert(evs.skip(ej as int).drop_first() =~= evs.skip(ej + 1));
            }
            match ev.meta_event_type {
                Some(MidiMetaEventType::TempoSetting) => {
                    tempo = Some(ev.value1);
                },
                _ => {
                },
            }
            ej = ej + 1;
        }
        proof {
            assert(models.skip(ti as int).first() == models[ti as int]);
            assert(models.skip(ti as int).drop_first() =~= models.skip(ti + 1));
        }
        ti = ti + 1;
    }
    proof {
        if tempo is None {
            assert(models.skip(models.len() as int) =~= Seq::<TrackModel>::empty());
        }
    }
    song.tempo = tempo;
    Ok(song)
}

} // verus!
