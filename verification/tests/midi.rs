use polysynth::env::EnvelopeState;
use polysynth::filter::Mode;
use polysynth::midi::{
    is_played, ChannelMessage, Event, Format, GMFamily, GMInstrument, Kind, MetaMessage, Midi,
    MidiChannel, MidiPlayback, MidiReader, Patch, Player, CHANNELS, PERCUSSION,
};
use polysynth::osc::Shape;
use polysynth::synth::Preset;

fn family(program: u8) -> GMFamily {
    GMInstrument::new(program).family
}

#[test]
fn families_are_blocks_of_eight() {
    let order = [
        GMFamily::Piano,
        GMFamily::ChromaticPercussion,
        GMFamily::Organ,
        GMFamily::Guitar,
        GMFamily::Bass,
        GMFamily::Strings,
        GMFamily::Ensemble,
        GMFamily::Brass,
        GMFamily::Reed,
        GMFamily::Pipe,
        GMFamily::SynthLead,
        GMFamily::SynthPad,
        GMFamily::SynthEffects,
        GMFamily::Ethnic,
        GMFamily::Percussive,
        GMFamily::SoundEffects,
    ];
    for program in 0u8..=127 {
        if program != 88 {
            assert_eq!(family(program), order[(program / 8) as usize]);
        }
        assert_eq!(GMInstrument::new(program).program_number(), program);
    }
}

#[test]
fn family_boundaries() {
    assert_eq!(family(0), GMFamily::Piano);
    assert_eq!(family(7), GMFamily::Piano);
    assert_eq!(family(8), GMFamily::ChromaticPercussion);
    assert_eq!(family(14), GMFamily::ChromaticPercussion);
    assert_eq!(family(16), GMFamily::Organ);
    assert_eq!(family(23), GMFamily::Organ);
    assert_eq!(family(24), GMFamily::Guitar);
    assert_eq!(family(31), GMFamily::Guitar);
    assert_eq!(family(32), GMFamily::Bass);
    assert_eq!(family(80), GMFamily::SynthLead);
    assert_eq!(family(87), GMFamily::SynthLead);
    assert_eq!(family(88), GMFamily::SynthLead);
    assert_eq!(family(89), GMFamily::SynthPad);
    assert_eq!(family(95), GMFamily::SynthPad);
    assert_eq!(family(96), GMFamily::SynthEffects);
    assert_eq!(family(120), GMFamily::SoundEffects);
    assert_eq!(family(127), GMFamily::SoundEffects);
}

#[test]
fn patches_of_the_families() {
    assert_eq!(GMInstrument::new(0).preset(), Patch::Piano);
    assert_eq!(GMInstrument::new(19).preset(), Patch::Organ);
    assert_eq!(GMInstrument::new(24).preset(), Patch::Guitar);
    assert_eq!(GMInstrument::new(33).preset(), Patch::Bass);
    assert_eq!(GMInstrument::new(40).preset(), Patch::Strings);
    assert_eq!(GMInstrument::new(8).preset(), Patch::Generic);
    assert_eq!(GMInstrument::new(48).preset(), Patch::Generic);
    assert_eq!(GMInstrument::new(88).preset(), Patch::Generic);
    assert_eq!(GMInstrument::new(127).preset(), Patch::Generic);
}

#[test]
fn new_file_has_the_default_tempo() {
    let midi = Midi::new(String::from("song.mid"));
    assert_eq!(midi.name, "song.mid");
    assert_eq!(midi.mpqn, 500000);
    assert_eq!(midi.time_division, 0);
    assert_eq!(midi.format, Format::Unknown);
    assert!(midi.tracks.is_empty());
    assert!(!midi.is_smpte());
}

#[test]
fn header_sets_layout_and_time_division() {
    let expected = [
        (0u16, Format::F0),
        (1, Format::F1),
        (2, Format::F2),
        (3, Format::Unknown),
        (0xffff, Format::Unknown),
    ];
    for (word, format) in expected {
        let mut reader = MidiReader::new(String::from("a"));
        reader.header(word, 3, 480);
        assert_eq!(reader.midi.format, format);
        assert_eq!(reader.midi.time_division, 480);
        assert_eq!(reader.midi.mpqn, 500000);
        assert!(reader.midi.tracks.is_empty());
    }
}

#[test]
fn smpte_time_division_is_recognised() {
    let mut reader = MidiReader::new(String::from("a"));
    reader.header(1, 1, 0x7fff);
    assert!(!reader.midi.is_smpte());
    reader.header(1, 1, 0x8000);
    assert!(reader.midi.is_smpte());
    reader.header(1, 1, 0xe728);
    assert!(reader.midi.is_smpte());
}

#[test]
fn tracks_are_numbered_as_they_come() {
    let mut reader = MidiReader::new(String::from("a"));
    reader.track_change();
    reader.track_change();
    reader.track_change();
    let ids: Vec<usize> = reader.midi.tracks.iter().map(|t| t.id).collect();
    assert_eq!(ids, vec![0, 1, 2]);
    for track in &reader.midi.tracks {
        assert_eq!(track.name, None);
        assert!(track.events.is_empty());
    }
}

#[test]
fn channel_messages_become_events() {
    let mut reader = MidiReader::new(String::from("a"));
    reader.track_change();
    reader.midi_event(0, ChannelMessage::ProgramChange { ch: 2, program: 33 });
    reader.midi_event(10, ChannelMessage::NoteOn { ch: 2, note: 60, velocity: 90 });
    reader.midi_event(15, ChannelMessage::Other);
    reader.midi_event(20, ChannelMessage::NoteOn { ch: 2, note: 60, velocity: 0 });
    reader.midi_event(30, ChannelMessage::NoteOn { ch: 3, note: 72, velocity: 1 });
    reader.midi_event(40, ChannelMessage::NoteOff { ch: 3, note: 72, velocity: 64 });
    let events = &reader.midi.tracks[0].events;
    assert_eq!(
        *events,
        vec![
            Event { time: 0, kind: Kind::Instrument { ch: 2, instrument: GMInstrument::new(33) } },
            Event { time: 10, kind: Kind::NoteOn { ch: 2, note: 60, velocity: 90 } },
            Event { time: 20, kind: Kind::NoteOff { ch: 2, note: 60 } },
            Event { time: 30, kind: Kind::NoteOn { ch: 3, note: 72, velocity: 1 } },
            Event { time: 40, kind: Kind::NoteOff { ch: 3, note: 72 } },
        ]
    );
}

#[test]
fn events_go_to_the_current_track() {
    let mut reader = MidiReader::new(String::from("a"));
    reader.track_change();
    reader.midi_event(1, ChannelMessage::NoteOn { ch: 0, note: 60, velocity: 90 });
    reader.track_change();
    reader.midi_event(2, ChannelMessage::NoteOn { ch: 1, note: 61, velocity: 91 });
    reader.midi_event(3, ChannelMessage::NoteOn { ch: 1, note: 62, velocity: 92 });
    assert_eq!(reader.midi.tracks[0].events.len(), 1);
    assert_eq!(reader.midi.tracks[1].events.len(), 2);
    assert_eq!(reader.midi.tracks[0].id, 0);
    assert_eq!(reader.midi.tracks[1].id, 1);
}

#[test]
fn track_name_is_read_from_its_bytes() {
    let mut reader = MidiReader::new(String::from("a"));
    reader.track_change();
    reader.track_change();
    reader.meta_event(MetaMessage::SequenceOrTrackName, &b"Lead \xc3\xa9".to_vec());
    assert_eq!(reader.midi.tracks[0].name, None);
    assert_eq!(reader.midi.tracks[1].name, Some(String::from("Lead \u{e9}")));
    reader.meta_event(MetaMessage::SequenceOrTrackName, &vec![0x66, 0xff, 0x67]);
    assert_eq!(reader.midi.tracks[1].name, Some(String::from("f\u{fffd}g")));
    reader.meta_event(MetaMessage::SequenceOrTrackName, &Vec::new());
    assert_eq!(reader.midi.tracks[1].name, Some(String::new()));
}

#[test]
fn tempo_is_read_most_significant_byte_first() {
    let mut reader = MidiReader::new(String::from("a"));
    reader.meta_event(MetaMessage::SetTempo, &vec![0x07, 0xa1, 0x20]);
    assert_eq!(reader.midi.mpqn, 500000);
    reader.meta_event(MetaMessage::SetTempo, &vec![0x0f, 0x42, 0x40, 0x99]);
    assert_eq!(reader.midi.mpqn, 1_000_000);
    reader.meta_event(MetaMessage::SetTempo, &vec![0xff, 0xff, 0xff]);
    assert_eq!(reader.midi.mpqn, 16_777_215);
    reader.meta_event(MetaMessage::SetTempo, &vec![0, 0, 1]);
    assert_eq!(reader.midi.mpqn, 1);
}

#[test]
fn other_meta_events_change_nothing() {
    let mut reader = MidiReader::new(String::from("a"));
    reader.track_change();
    reader.meta_event(MetaMessage::Other, &vec![1, 2, 3]);
    reader.meta_event(MetaMessage::Other, &Vec::new());
    assert_eq!(reader.midi.mpqn, 500000);
    assert_eq!(reader.midi.tracks[0].name, None);
    assert!(reader.midi.tracks[0].events.is_empty());
}

fn two_tracks() -> Midi {
    let mut reader = MidiReader::new(String::from("a"));
    reader.track_change();
    for (time, note) in [(0u64, 60u8), (100, 62), (100, 64), (250, 65)] {
        reader.midi_event(time, ChannelMessage::NoteOn { ch: 0, note, velocity: 100 });
    }
    reader.track_change();
    for (time, note) in [(50u64, 40u8), (300, 43)] {
        reader.midi_event(time, ChannelMessage::NoteOn { ch: 1, note, velocity: 100 });
    }
    reader.track_change();
    reader.midi
}

fn notes(events: &[&Event]) -> Vec<u8> {
    events
        .iter()
        .map(|event| match event.kind {
            Kind::NoteOn { note, .. } => note,
            _ => panic!("only note-ons were written"),
        })
        .collect()
}

#[test]
fn player_hands_out_what_is_due() {
    let midi = two_tracks();
    let mut player = Player::new(&midi);
    assert_eq!(notes(&player.get_events(0)), vec![60]);
    assert_eq!(notes(&player.get_events(0)), Vec::<u8>::new());
    assert_eq!(notes(&player.get_events(49)), Vec::<u8>::new());
    assert_eq!(notes(&player.get_events(100)), vec![62, 64, 40]);
    assert_eq!(notes(&player.get_events(299)), vec![65]);
    assert_eq!(notes(&player.get_events(300)), vec![43]);
    assert_eq!(notes(&player.get_events(u64::MAX)), Vec::<u8>::new());
}

#[test]
fn player_hands_out_everything_at_the_end_of_time() {
    let midi = two_tracks();
    let mut player = Player::new(&midi);
    assert_eq!(notes(&player.get_events(u64::MAX)), vec![60, 62, 64, 65, 40, 43]);
    let mut again = Player::new(&midi);
    assert_eq!(notes(&again.get_events(250)), vec![60, 62, 64, 65, 40]);
}

#[test]
fn player_stops_at_the_first_event_that_is_not_due() {
    let mut reader = MidiReader::new(String::from("a"));
    reader.track_change();
    for (time, note) in [(10u64, 1u8), (500, 2), (20, 3)] {
        reader.midi_event(time, ChannelMessage::NoteOn { ch: 0, note, velocity: 100 });
    }
    let midi = reader.midi;
    let mut player = Player::new(&midi);
    assert_eq!(notes(&player.get_events(100)), vec![1]);
    assert_eq!(notes(&player.get_events(500)), vec![2, 3]);
}

#[test]
fn polling_often_hands_out_the_same_as_polling_once() {
    let midi = two_tracks();
    let mut often = Player::new(&midi);
    let mut first_track: Vec<u8> = Vec::new();
    let mut second_track: Vec<u8> = Vec::new();
    for now in 0..=300u64 {
        for event in often.get_events(now) {
            match event.kind {
                Kind::NoteOn { ch: 0, note, .. } => first_track.push(note),
                Kind::NoteOn { note, .. } => second_track.push(note),
                _ => panic!("only note-ons were written"),
            }
        }
    }
    assert_eq!(first_track, vec![60, 62, 64, 65]);
    assert_eq!(second_track, vec![40, 43]);
}

#[test]
fn player_of_an_empty_file_has_nothing() {
    let midi = Midi::new(String::from("a"));
    let mut player = Player::new(&midi);
    assert!(player.get_events(1000).is_empty());
}

#[test]
fn channel_is_a_synth_of_its_own() {
    let mut channel = MidiChannel::new(3, 4, 5);
    assert_eq!(channel.synth.voices(), (128, 0));
    channel.synth.note_on(60, 100);
    assert_eq!(channel.next(), 1);
    assert_eq!(channel.synth.pool().voice(0).env.current_sample_idx, 1);
}

#[test]
fn playback_routes_notes_to_their_channel() {
    let mut playback = MidiPlayback::new(3, 4, 5);
    assert_eq!(CHANNELS, 16);
    assert_eq!(playback.note_on(0, 60, 100), Some(0));
    assert_eq!(playback.note_on(15, 61, 100), Some(0));
    assert_eq!(playback.note_on(15, 62, 100), Some(1));
    assert_eq!(playback.synth(0).voices(), (128, 1));
    assert_eq!(playback.synth(15).voices(), (128, 2));
    for ch in 1..15 {
        assert_eq!(playback.synth(ch).voices(), (128, 0));
    }
    playback.note_off(15, 61);
    assert_eq!(playback.synth(15).pool().voice(0).env.state(), EnvelopeState::Release);
    assert_eq!(playback.synth(15).pool().voice(1).env.state(), EnvelopeState::Attack);
    assert_eq!(playback.synth(0).pool().voice(0).env.state(), EnvelopeState::Attack);
}

#[test]
fn playback_leaves_percussion_out() {
    let mut playback = MidiPlayback::new(3, 4, 5);
    assert_eq!(PERCUSSION, 9);
    playback.note_on(9, 36, 100);
    playback.note_on(9, 38, 100);
    playback.note_on(8, 60, 100);
    playback.note_on(10, 60, 100);
    playback.note_on(10, 64, 100);
    assert_eq!(playback.next(), 3);
    assert_eq!(playback.synth(8).pool().voice(0).env.current_sample_idx, 1);
    assert_eq!(playback.synth(10).pool().voice(1).env.current_sample_idx, 1);
    assert_eq!(playback.synth(9).pool().voice(0).env.current_sample_idx, 0);
    assert_eq!(playback.synth(9).voices(), (128, 2));
}

#[test]
fn every_channel_but_percussion_is_played() {
    for ch in 0u8..16 {
        assert_eq!(is_played(ch), ch != 9);
    }
}

#[test]
fn instrument_is_set_on_one_channel() {
    let mut playback = MidiPlayback::new(3, 4, 5);
    let preset = Preset {
        osc1_waveform: Shape::Saw,
        osc2_waveform: Shape::Saw,
        filter_mode: Mode::Highpass,
        lfo_waveform: Shape::Triangle,
    };
    playback.set_instrument(4, &preset);
    assert_eq!(playback.synth(4).pool().voice(127).osc1_shape, Shape::Saw);
    assert_eq!(playback.synth(4).pool().voice(0).filter_mode, Mode::Highpass);
    assert_eq!(playback.synth(4).pool().lfo_shape(), Shape::Triangle);
    assert_eq!(playback.synth(3).pool().voice(0).osc1_shape, Shape::Square);
    assert_eq!(playback.synth(5).pool().lfo_shape(), Shape::Square);
}

#[test]
fn playback_plays_a_channel_voice_by_voice() {
    let mut playback = MidiPlayback::new(3, 4, 5);
    playback.note_on(2, 60, 100);
    let synth = playback.synth_mut(2);
    assert!(synth.next_voice(0).is_some());
    assert!(synth.next_voice(1).is_none());
    assert_eq!(playback.synth(2).pool().voice(0).env.current_sample_idx, 1);
}
