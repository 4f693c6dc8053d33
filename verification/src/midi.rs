//! Note events as a Standard MIDI File delivers them: the General MIDI
//! instrument families, the events of a track, the reader's bookkeeping and
//! the player that hands out the events that are due.

use vstd::prelude::*;
use vstd::utf8::{decode_utf8, valid_utf8};
use crate::osc::Shape;
use crate::synth::{
    active_count, after_note_off, after_note_on, after_preset, after_sample, first_free,
    lemma_active_count_bound, lemma_first_free_from, Preset, Synth, Voice, MAX_NOTE, POLYPHONY,
};

verus! {

/// A channel number, 0 to 15.
pub type Channel = u8;

/// A note number, 0 to 127; 69 is the A above middle C.
pub type Note = u8;

/// How hard a key was struck, 1 to 127.
pub type Velocity = u8;

/// The sixteen General MIDI instrument families.
#[derive(Eq, PartialEq, Structural, Debug, Copy, Clone)]
pub enum GMFamily {
    Piano,
    ChromaticPercussion,
    Organ,
    Guitar,
    Bass,
    Strings,
    Ensemble,
    Brass,
    Reed,
    Pipe,
    SynthLead,
    SynthPad,
    SynthEffects,
    Ethnic,
    Percussive,
    SoundEffects,
}

/// The family with the given place in the General MIDI list, counted from zero.
pub open spec fn family_at(index: int) -> GMFamily {
    if index == 0 {
        GMFamily::Piano
    } else if index == 1 {
        GMFamily::ChromaticPercussion
    } else if index == 2 {
        GMFamily::Organ
    } else if index == 3 {
        GMFamily::Guitar
    } else if index == 4 {
        GMFamily::Bass
    } else if index == 5 {
        GMFamily::Strings
    } else if index == 6 {
        GMFamily::Ensemble
    } else if index == 7 {
        GMFamily::Brass
    } else if index == 8 {
        GMFamily::Reed
    } else if index == 9 {
        GMFamily::Pipe
    } else if index == 10 {
        GMFamily::SynthLead
    } else if index == 11 {
        GMFamily::SynthPad
    } else if index == 12 {
        GMFamily::SynthEffects
    } else if index == 13 {
        GMFamily::Ethnic
    } else if index == 14 {
        GMFamily::Percussive
    } else {
        GMFamily::SoundEffects
    }
}

/// The family of a program number. Families are blocks of eight programs,
/// with one exception: program 88 still counts as a synth lead.
pub open spec fn family_of(program: u8) -> GMFamily {
    if program == 88 {
        GMFamily::SynthLead
    } else {
        family_at(program as int / 8)
    }
}

/// A General MIDI instrument: a program number and the family it belongs to.
#[derive(Eq, PartialEq, Structural, Debug, Copy, Clone)]
pub struct GMInstrument {
    pub family: GMFamily,
    pub program_number: u8,
}

/// The built-in patches that an instrument can be played with.
#[derive(Eq, PartialEq, Structural, Debug, Copy, Clone)]
pub enum Patch {
    Piano,
    Organ,
    Guitar,
    Bass,
    Strings,
    Generic,
}

/// The patch that stands for a family: five families have one of their
/// own, all others share the generic one.
pub open spec fn patch_of(family: GMFamily) -> Patch {
    match family {
        GMFamily::Piano => Patch::Piano,
        GMFamily::Organ => Patch::Organ,
        GMFamily::Guitar => Patch::Guitar,
        GMFamily::Bass => Patch::Bass,
        GMFamily::Strings => Patch::Strings,
        _ => Patch::Generic,
    }
}

impl GMInstrument {
    /// The instrument with the given program number.
    pub open spec fn of(program: u8) -> GMInstrument {
        GMInstrument { family: family_of(program), program_number: program }
    }

    /// Whether the family is the one the program number belongs to.
    pub open spec fn wf(&self) -> bool {
        self.program_number <= 127 && *self == GMInstrument::of(self.program_number)
    }

    /// The instrument with the given program number, which must be one of
    /// the 128 that General MIDI defines.
    pub fn new(program_number: u8) -> (instrument: GMInstrument)
        requires
            program_number <= 127,
        ensures
            instrument == GMInstrument::of(program_number),
            instrument.wf(),
    {
        let family = if program_number <= 7 {
            GMFamily::Piano
        } else if program_number <= 15 {
            GMFamily::ChromaticPercussion
        } else if program_number <= 23 {
            GMFamily::Organ
        } else if program_number <= 31 {
            GMFamily::Guitar
        } else if program_number <= 39 {
            GMFamily::Bass
        } else if program_number <= 47 {
            GMFamily::Strings
        } else if program_number <= 55 {
            GMFamily::Ensemble
        } else if program_number <= 63 {
            GMFamily::Brass
        } else if program_number <= 71 {
            GMFamily::Reed
        } else if program_number <= 79 {
            GMFamily::Pipe
        } else if program_number <= 88 {
            GMFamily::SynthLead
        } else if program_number <= 95 {
            GMFamily::SynthPad
        } else if program_number <= 103 {
            GMFamily::SynthEffects
        } else if program_number <= 111 {
            GMFamily::Ethnic
        } else if program_number <= 119 {
            GMFamily::Percussive
        } else {
            GMFamily::SoundEffects
        };
        GMInstrument { program_number, family }
    }

    /// The program number of this instrument.
    #[inline]
    pub fn program_number(&self) -> (program: u8)
        ensures
            program == self.program_number,
    {
        self.program_number
    }

    /// The patch this instrument is played with.
    pub fn preset(&self) -> (patch: Patch)
        ensures
            patch == patch_of(self.family),
    {
        match self.family {
            GMFamily::Piano => Patch::Piano,
            GMFamily::Organ => Patch::Organ,
            GMFamily::Guitar => Patch::Guitar,
            GMFamily::Bass => Patch::Bass,
            GMFamily::Strings => Patch::Strings,
            _ => Patch::Generic,
        }
    }
}

/// What an event asks of the synthesizer.
#[derive(Eq, PartialEq, Structural, Debug, Copy, Clone)]
pub enum Kind {
    NoteOn { ch: Channel, note: Note, velocity: Velocity },
    NoteOff { ch: Channel, note: Note },
    Instrument { ch: Channel, instrument: GMInstrument },
}

/// An event and the time at which it is due, in microseconds from the
/// start of its track.
#[derive(Eq, PartialEq, Structural, Debug, Copy, Clone)]
pub struct Event {
    pub kind: Kind,
    pub time: u64,
}

/// One track of a file: its events in the order in which they were read.
#[derive(Debug)]
pub struct Track {
    pub name: Option<String>,
    pub id: usize,
    pub events: Vec<Event>,
}

/// The layout of a Standard MIDI File.
#[derive(Eq, PartialEq, Structural, Debug, Copy, Clone)]
pub enum Format {
    /// A single track.
    F0,
    /// Several tracks that play together.
    F1,
    /// Several independent single-track patterns.
    F2,
    Unknown,
}

/// The layout that a header's format word names.
pub open spec fn format_of(word: u16) -> Format {
    if word == 0 {
        Format::F0
    } else if word == 1 {
        Format::F1
    } else if word == 2 {
        Format::F2
    } else {
        Format::Unknown
    }
}

/// `ghakuf::formats::Format::new`, with its result carried over variant by
/// variant: the words 0, 1 and 2 name the three layouts, every other word
/// is unknown.
#[verifier::external_body]
fn layout_of_word(word: u16) -> (format: Format)
    ensures
        format == format_of(word),
{
    match ghakuf::formats::Format::new(word) {
        ghakuf::formats::Format::F0 => Format::F0,
        ghakuf::formats::Format::F1 => Format::F1,
        ghakuf::formats::Format::F2 => Format::F2,
        ghakuf::formats::Format::Unknown => Format::Unknown,
    }
}

/// The text that `String::from_utf8_lossy` makes of `bytes`.
pub uninterp spec fn lossy_text(bytes: Seq<u8>) -> Seq<char>;

/// `String::from_utf8_lossy`: the bytes read as UTF-8, each malformed
/// stretch replaced by U+FFFD. Bytes that are valid UTF-8 decode to the
/// text they encode.
#[verifier::external_body]
fn text_of_bytes(bytes: &Vec<u8>) -> (text: String)
    ensures
        text@ == lossy_text(bytes@),
        valid_utf8(bytes@) ==> text@ == decode_utf8(bytes@),
{
    String::from_utf8_lossy(bytes).to_string()
}

/// What was read of one file.
#[derive(Debug)]
pub struct Midi {
    pub tracks: Vec<Track>,
    /// Ticks per quarter note, as the header gives them.
    pub time_division: u16,
    /// Microseconds per quarter note.
    pub mpqn: u128,
    pub name: String,
    pub format: Format,
}

impl Midi {
    /// An empty file with the default tempo of 120 beats per minute.
    pub fn new(name: String) -> (midi: Midi)
        ensures
            midi.tracks@.len() == 0,
            midi.time_division == 0,
            midi.mpqn == 500000,
            midi.name == name,
            midi.format == Format::Unknown,
    {
        Midi {
            format: Format::Unknown,
            mpqn: 500000,
            time_division: 0,
            tracks: Vec::new(),
            name,
        }
    }

    /// Whether the header counts time in subdivisions of a second (bit 15 of
    /// the time division) rather than in ticks per quarter note.
    pub fn is_smpte(&self) -> (smpte: bool)
        ensures
            smpte == (self.time_division >= 0x8000),
    {
        self.time_division >= 0x8000
    }
}

/// A channel message of a track, as far as the reader tells them apart.
#[derive(Eq, PartialEq, Structural, Debug, Copy, Clone)]
pub enum ChannelMessage {
    NoteOff { ch: Channel, note: Note, velocity: Velocity },
    NoteOn { ch: Channel, note: Note, velocity: Velocity },
    ProgramChange { ch: Channel, program: u8 },
    /// Key and channel pressure, controllers, pitch bend and everything unknown.
    Other,
}

/// A meta event of a track, as far as the reader tells them apart.
#[derive(Eq, PartialEq, Structural, Debug, Copy, Clone)]
pub enum MetaMessage {
    SequenceOrTrackName,
    SetTempo,
    /// Every meta event that carries nothing for playback.
    Other,
}

/// The event that a channel message becomes at `time`, if it becomes one.
/// A note-on with velocity zero is a note-off.
pub open spec fn event_of(time: u64, message: ChannelMessage) -> Option<Event> {
    match message {
        ChannelMessage::NoteOff { ch, note, velocity } => Some(
            Event { time, kind: Kind::NoteOff { ch, note } },
        ),
        ChannelMessage::NoteOn { ch, note, velocity } => if velocity == 0 {
            Some(Event { time, kind: Kind::NoteOff { ch, note } })
        } else {
            Some(Event { time, kind: Kind::NoteOn { ch, note, velocity } })
        },
        ChannelMessage::ProgramChange { ch, program } => Some(
            Event { time, kind: Kind::Instrument { ch, instrument: GMInstrument::of(program) } },
        ),
        ChannelMessage::Other => None,
    }
}

/// The tempo that the first three bytes of a set-tempo event spell out,
/// most significant byte first.
pub open spec fn tempo_of(data: Seq<u8>) -> int {
    data[0] as int * 65536 + data[1] as int * 256 + data[2] as int
}

/// The state of a file while it is being read.
pub struct MidiReader {
    pub midi: Midi,
}

impl MidiReader {
    /// A reader that has seen nothing yet of the file called `name`.
    pub fn new(name: String) -> (reader: MidiReader)
        ensures
            reader.midi.tracks@.len() == 0,
            reader.midi.time_division == 0,
            reader.midi.mpqn == 500000,
            reader.midi.name == name,
            reader.midi.format == Format::Unknown,
    {
        MidiReader { midi: Midi::new(name) }
    }

    /// Whether a track has been opened, so that events have a place to go.
    pub open spec fn in_track(&self) -> bool {
        self.midi.tracks@.len() > 0
    }

    /// The track that is being read.
    pub open spec fn current(&self) -> Track
        recommends
            self.in_track(),
    {
        self.midi.tracks@.last()
    }

    /// Takes in the file header: the layout and the time division.
    pub fn header(&mut self, format: u16, tracks: u16, time_division: u16)
        ensures
            final(self).midi.time_division == time_division,
            final(self).midi.format == format_of(format),
            final(self).midi.tracks == old(self).midi.tracks,
            final(self).midi.mpqn == old(self).midi.mpqn,
            final(self).midi.name == old(self).midi.name,
    {
        self.midi.time_division = time_division;
        self.midi.format = layout_of_word(format);
    }

    /// Takes in a meta event with its payload: a track name names the
    /// current track, a set-tempo event sets the tempo of the file;
    /// everything else is dropped.
    pub fn meta_event(&mut self, event: MetaMessage, data: &Vec<u8>)
        requires
            event == MetaMessage::SequenceOrTrackName ==> old(self).in_track(),
            event == MetaMessage::SetTempo ==> data@.len() >= 3,
        ensures
            final(self).midi.time_division == old(self).midi.time_division,
            final(self).midi.format == old(self).midi.format,
            final(self).midi.name == old(self).midi.name,
            final(self).midi.mpqn == if event == MetaMessage::SetTempo {
                tempo_of(data@)
            } else {
                old(self).midi.mpqn as int
            },
            event != MetaMessage::SequenceOrTrackName ==> final(self).midi.tracks == old(
                self,
            ).midi.tracks,
            event == MetaMessage::SequenceOrTrackName ==> {
                &&& final(self).midi.tracks@.len() == old(self).midi.tracks@.len()
                &&& final(self).midi.tracks@.drop_last() == old(self).midi.tracks@.drop_last()
                &&& final(self).current().id == old(self).current().id
                &&& final(self).current().events == old(self).current().events
                &&& final(self).current().name matches Some(name)
                &&& name@ == lossy_text(data@)
                &&& valid_utf8(data@) ==> name@ == decode_utf8(data@)
            },
    {
        match event {
            MetaMessage::SequenceOrTrackName => {
                let last = self.midi.tracks.len() - 1;
                self.midi.tracks[last].name = Some(text_of_bytes(data));
            },
            MetaMessage::SetTempo => {
                let high: u128 = data[0] as u128;
                let middle: u128 = data[1] as u128;
                let low: u128 = data[2] as u128;
                self.midi.mpqn = high * 65536 + middle * 256 + low;
            },
            MetaMessage::Other => {},
        }
    }

    /// Opens the next track: it is empty, has no name, and is numbered by
    /// its place in the file.
    pub fn track_change(&mut self)
        ensures
            final(self).midi.tracks@.len() == old(self).midi.tracks@.len() + 1,
            final(self).midi.tracks@.drop_last() == old(self).midi.tracks@,
            final(self).current().name is None,
            final(self).current().id == old(self).midi.tracks@.len(),
            final(self).current().events@.len() == 0,
            final(self).midi.time_division == old(self).midi.time_division,
            final(self).midi.format == old(self).midi.format,
            final(self).midi.mpqn == old(self).midi.mpqn,
            final(self).midi.name == old(self).midi.name,
    {
        let id = self.midi.tracks.len();
        self.midi.tracks.push(Track { name: None, id, events: Vec::new() });
    }

    /// Takes in a channel message that is due at `time`: note-ons, note-offs
    /// and program changes become events of the current track, in the order
    /// in which they arrive; everything else is dropped.
    pub fn midi_event(&mut self, time: u64, message: ChannelMessage)
        requires
            old(self).in_track(),
            message matches ChannelMessage::ProgramChange { program, .. } ==> program <= 127,
        ensures
            final(self).midi.tracks@.len() == old(self).midi.tracks@.len(),
            final(self).midi.tracks@.drop_last() == old(self).midi.tracks@.drop_last(),
            final(self).current().name == old(self).current().name,
            final(self).current().id == old(self).current().id,
            final(self).current().events@ == match event_of(time, message) {
                Some(event) => old(self).current().events@.push(event),
                None => old(self).current().events@,
            },
            final(self).midi.time_division == old(self).midi.time_division,
            final(self).midi.format == old(self).midi.format,
            final(self).midi.mpqn == old(self).midi.mpqn,
            final(self).midi.name == old(self).midi.name,
    {
        let last = self.midi.tracks.len() - 1;
        match message {
            ChannelMessage::NoteOff { ch, note, velocity } => {
                self.midi.tracks[last].events.push(Event { time, kind: Kind::NoteOff { note, ch } });
            },
            ChannelMessage::NoteOn { ch, note, velocity } => {
                if velocity == 0 {
                    self.midi.tracks[last].events.push(
                        Event { time, kind: Kind::NoteOff { note, ch } },
                    );
                } else {
                    self.midi.tracks[last].events.push(
                        Event { time, kind: Kind::NoteOn { ch, note, velocity } },
                    );
                }
            },
            ChannelMessage::ProgramChange { ch, program } => {
                self.midi.tracks[last].events.push(
                    Event { time, kind: Kind::Instrument { ch, instrument: GMInstrument::new(program) } },
                );
            },
            ChannelMessage::Other => {},
        }
    }
}

/// The place of the first event at or after `from` that is not yet due at
/// `now`, or the length of the track if all of them are due.
pub open spec fn first_pending(events: Seq<Event>, from: int, now: u64) -> int
    decreases events.len() - from,
{
    if from < 0 || from >= events.len() || events[from].time > now {
        from
    } else {
        first_pending(events, from + 1, now)
    }
}

/// The events that the first `upto` tracks hand out at `now`: track by
/// track, each track's events from its cursor up to the first that is not
/// yet due.
pub open spec fn handed_out(tracks: Seq<Track>, cursors: Seq<usize>, now: u64, upto: int) -> Seq<
    Event,
>
    decreases upto,
{
    if upto <= 0 {
        Seq::empty()
    } else {
        let events = tracks[upto - 1].events@;
        let from = cursors[upto - 1] as int;
        handed_out(tracks, cursors, now, upto - 1) + events.subrange(
            from,
            first_pending(events, from, now),
        )
    }
}

/// `first_pending` stays within the track, and every event between `from`
/// and its result is due.
pub proof fn lemma_first_pending(events: Seq<Event>, from: int, now: u64)
    requires
        0 <= from <= events.len(),
    ensures
        from <= first_pending(events, from, now) <= events.len(),
        forall|k: int| from <= k < first_pending(events, from, now) ==> events[k].time <= now,
        first_pending(events, from, now) < events.len() ==> events[first_pending(
            events,
            from,
            now,
        )].time > now,
    decreases events.len() - from,
{
    if from < events.len() && events[from].time <= now {
        lemma_first_pending(events, from + 1, now);
    }
}

/// Polling twice hands out what polling once would have: when a track is
/// asked for what is due at `earlier` and then at `later`, its cursor ends
/// where asking at `later` alone would have put it, so no event is handed
/// out twice and none is passed over.
pub proof fn lemma_polling_in_steps(events: Seq<Event>, from: int, earlier: u64, later: u64)
    requires
        0 <= from <= events.len(),
        earlier <= later,
    ensures
        first_pending(events, first_pending(events, from, earlier), later) == first_pending(
            events,
            from,
            later,
        ),
        events.subrange(from, first_pending(events, from, earlier)) + events.subrange(
            first_pending(events, from, earlier),
            first_pending(events, from, later),
        ) == events.subrange(from, first_pending(events, from, later)),
    decreases events.len() - from,
{
    lemma_first_pending(events, from, earlier);
    lemma_first_pending(events, from, later);
    if from < events.len() && events[from].time <= earlier {
        lemma_polling_in_steps(events, from + 1, earlier, later);
    }
}

/// Plays the tracks of a file side by side: one cursor per track, each at
/// the first event that has not been handed out yet.
pub struct Player<'a> {
    midi: &'a Midi,
    cursors: Vec<usize>,
}

impl<'a> Player<'a> {
    /// The file that is played.
    pub closed spec fn source(&self) -> Midi {
        *self.midi
    }

    /// The cursors, one per track.
    pub closed spec fn cursors(&self) -> Seq<usize> {
        self.cursors@
    }

    /// Every track has its cursor, and no cursor is past the end of its track.
    pub open spec fn wf(&self) -> bool {
        &&& self.cursors().len() == self.source().tracks@.len()
        &&& forall|t: int|
            0 <= t < self.cursors().len() ==> #[trigger] self.cursors()[t]
                <= self.source().tracks@[t].events@.len()
    }

    /// A player at the start of every track of `midi`.
    pub fn new(midi: &'a Midi) -> (player: Player<'a>)
        ensures
            player.wf(),
            player.source() == *midi,
            forall|t: int| 0 <= t < player.cursors().len() ==> player.cursors()[t] == 0,
    {
        let mut cursors: Vec<usize> = Vec::new();
        let mut t: usize = 0;
        while t < midi.tracks.len()
            invariant
                t <= midi.tracks@.len(),
                cursors@.len() == t,
                forall|k: int| 0 <= k < t ==> cursors@[k] == 0,
            decreases midi.tracks@.len() - t,
        {
            cursors.push(0);
            t += 1;
        }
        Player { midi, cursors }
    }

    /// Hands out the events that are due at `now` and were not handed out
    /// before: track by track, each track's events in their order, up to
    /// the first one that lies in the future.
    pub fn get_events(&mut self, now: u64) -> (due: Vec<&'a Event>)
        requires
            old(self).wf(),
        ensures
            final(self).wf(),
            final(self).source() == old(self).source(),
            due@.len() == handed_out(
                old(self).source().tracks@,
                old(self).cursors(),
                now,
                old(self).cursors().len() as int,
            ).len(),
            forall|k: int|
                0 <= k < due@.len() ==> *due@[k] == handed_out(
                    old(self).source().tracks@,
                    old(self).cursors(),
                    now,
                    old(self).cursors().len() as int,
                )[k],
            forall|t: int|
                0 <= t < old(self).cursors().len() ==> final(self).cursors()[t] == first_pending(
                    old(self).source().tracks@[t].events@,
                    old(self).cursors()[t] as int,
                    now,
                ),
    {
        let mut result: Vec<&'a Event> = Vec::new();
        let midi: &'a Midi = self.midi;
        let ghost tracks = midi.tracks@;
        let ghost start = self.cursors@;
        let mut t: usize = 0;
        while t < self.cursors.len()
            invariant
                midi == old(self).midi,
                self.midi == old(self).midi,
                tracks == midi.tracks@,
                start == old(self).cursors@,
                old(self).wf(),
                self.cursors@.len() == start.len(),
                t <= start.len(),
                forall|k: int| t <= k < start.len() ==> self.cursors@[k] == start[k],
                forall|k: int|
                    0 <= k < t ==> self.cursors@[k] == first_pending(
                        tracks[k].events@,
                        start[k] as int,
                        now,
                    ),
                forall|k: int|
                    0 <= k < start.len() ==> #[trigger] self.cursors@[k] <= tracks[k].events@.len(),
                result@.len() == handed_out(tracks, start, now, t as int).len(),
                forall|k: int|
                    0 <= k < result@.len() ==> *result@[k] == handed_out(tracks, start, now, t as int)[k],
            decreases start.len() - t,
        {
            let events = &midi.tracks[t].events;
            let mut cursor = self.cursors[t];
            let ghost from = cursor as int;
            let ghost before = result@;
            proof {
                lemma_first_pending(events@, from, now);
            }
            while cursor < events.len() && events[cursor].time <= now
                invariant
                    from <= cursor <= events@.len(),
                    first_pending(events@, cursor as int, now) == first_pending(events@, from, now),
                    result@.len() == before.len() + (cursor - from),
                    forall|k: int| 0 <= k < before.len() ==> result@[k] == before[k],
                    forall|k: int|
                        before.len() <= k < result@.len() ==> *#[trigger] result@[k] == events@[from
                            + k - before.len()],
                decreases events@.len() - cursor,
            {
                result.push(&events[cursor]);
                cursor += 1;
            }
            proof {
                let pending = first_pending(events@, from, now);
                let earlier = handed_out(tracks, start, now, t as int);
                let all = handed_out(tracks, start, now, t + 1);
                assert(cursor == pending);
                assert(all == earlier + events@.subrange(from, pending));
                assert(earlier.len() == before.len());
                assert forall|k: int| 0 <= k < result@.len() implies *result@[k] == all[k] by {
                    if k >= before.len() {
                        assert(all[k] == events@.subrange(from, pending)[k - before.len()]);
                        assert(*result@[k] == events@[from + k - before.len()]);
                    } else {
                        assert(result@[k] == before[k]);
                        assert(*before[k] == earlier[k]);
                        assert(all[k] == earlier[k]);
                    }
                }
            }
            self.cursors[t] = cursor;
            t += 1;
        }
        result
    }
}

/// One MIDI channel: a synthesizer of its own.
pub struct MidiChannel {
    pub synth: Synth,
}

impl MidiChannel {
    /// A channel whose voices are all idle, with the given envelope stage lengths.
    pub fn new(attack: u64, decay: u64, release: u64) -> (channel: MidiChannel)
        ensures
            channel.synth@.len() == POLYPHONY,
            forall|i: int|
                0 <= i < POLYPHONY ==> #[trigger] channel.synth@[i] == Voice::spec_idle(
                    attack,
                    decay,
                    release,
                ),
            channel.synth.lfo() == Shape::Square,
    {
        MidiChannel { synth: Synth::new(attack, decay, release) }
    }

    /// Advances every taken voice of the channel by one sample. Returns how
    /// many voices sounded.
    pub fn next(&mut self) -> (sounding: usize)
        ensures
            final(self).synth@ == after_sample(old(self).synth@),
            final(self).synth.lfo() == old(self).synth.lfo(),
            sounding == active_count(old(self).synth@),
    {
        self.synth.next()
    }
}

/// The number of channels that MIDI has.
pub const CHANNELS: usize = 16;

/// The channel that General MIDI keeps for percussion. It takes events like
/// any other channel but is left out of playback.
pub const PERCUSSION: usize = 9;

/// Whether channel `ch` is heard in playback: every channel but the
/// percussion channel is.
pub fn is_played(ch: Channel) -> (played: bool)
    ensures
        played == (ch != PERCUSSION),
{
    ch as usize != PERCUSSION
}

/// The number of voices that sound in the first `upto` channels, the
/// percussion channel left out.
pub open spec fn sounding_in(pools: Seq<Seq<Voice>>, upto: int) -> nat
    decreases upto,
{
    if upto <= 0 {
        0
    } else {
        sounding_in(pools, upto - 1) + if upto - 1 == PERCUSSION {
            0nat
        } else {
            active_count(pools[upto - 1])
        }
    }
}

/// The sixteen channels of a MIDI stream, each with its own synthesizer.
pub struct MidiPlayback {
    channels: Vec<MidiChannel>,
}

impl View for MidiPlayback {
    type V = Seq<Seq<Voice>>;

    /// The pool of each channel.
    closed spec fn view(&self) -> Seq<Seq<Voice>> {
        Seq::new(self.channels@.len(), |ch: int| self.channels@[ch].synth@)
    }
}

impl MidiPlayback {
    /// The waveform of the modulation oscillator of each channel.
    pub closed spec fn lfos(&self) -> Seq<Shape> {
        Seq::new(self.channels@.len(), |ch: int| self.channels@[ch].synth.lfo())
    }

    /// There are sixteen channels, each with a full pool.
    pub open spec fn wf(&self) -> bool {
        &&& self@.len() == CHANNELS
        &&& self.lfos().len() == CHANNELS
        &&& forall|ch: int| 0 <= ch < CHANNELS ==> (#[trigger] self@[ch]).len() == POLYPHONY
    }

    /// Sixteen channels whose voices are all idle, with the given envelope
    /// stage lengths.
    pub fn new(attack: u64, decay: u64, release: u64) -> (playback: MidiPlayback)
        ensures
            playback.wf(),
            forall|ch: int, i: int|
                0 <= ch < CHANNELS && 0 <= i < POLYPHONY ==> #[trigger] playback@[ch][i]
                    == Voice::spec_idle(attack, decay, release),
            forall|ch: int| 0 <= ch < CHANNELS ==> playback.lfos()[ch] == Shape::Square,
    {
        let mut channels: Vec<MidiChannel> = Vec::new();
        let mut made: usize = 0;
        while made < CHANNELS
            invariant
                made <= CHANNELS,
                channels@.len() == made,
                forall|ch: int|
                    0 <= ch < made ==> (#[trigger] channels@[ch]).synth@.len() == POLYPHONY,
                forall|ch: int, i: int|
                    0 <= ch < made && 0 <= i < POLYPHONY ==> #[trigger] channels@[ch].synth@[i]
                        == Voice::spec_idle(attack, decay, release),
                forall|ch: int| 0 <= ch < made ==> channels@[ch].synth.lfo() == Shape::Square,
            decreases CHANNELS - made,
        {
            channels.push(MidiChannel::new(attack, decay, release));
            made += 1;
        }
        MidiPlayback { channels }
    }

    /// Starts a voice of channel `ch` on `note`; see [`Synth::note_on`].
    pub fn note_on(&mut self, ch: Channel, note: Note, velocity: Velocity) -> (slot: Option<usize>)
        requires
            old(self).wf(),
            ch < CHANNELS,
        ensures
            final(self).wf(),
            final(self)@ == old(self)@.update(
                ch as int,
                after_note_on(old(self)@[ch as int], note, velocity),
            ),
            final(self).lfos() == old(self).lfos(),
            slot == if note <= MAX_NOTE && first_free(old(self)@[ch as int]) < POLYPHONY {
                Some(first_free(old(self)@[ch as int]) as usize)
            } else {
                None
            },
    {
        let slot = self.channels[ch as usize].synth.note_on(note, velocity);
        assert(self@ == old(self)@.update(
            ch as int,
            after_note_on(old(self)@[ch as int], note, velocity),
        ));
        proof {
            lemma_first_free_from(old(self)@[ch as int], 0);
        }
        assert(self.lfos() == old(self).lfos());
        slot
    }

    /// Releases the voices of channel `ch` that hold `note`; see [`Synth::note_off`].
    pub fn note_off(&mut self, ch: Channel, note: Note)
        requires
            old(self).wf(),
            ch < CHANNELS,
        ensures
            final(self).wf(),
            final(self)@ == old(self)@.update(ch as int, after_note_off(old(self)@[ch as int], note)),
            final(self).lfos() == old(self).lfos(),
    {
        self.channels[ch as usize].synth.note_off(note);
        assert(self@ == old(self)@.update(ch as int, after_note_off(old(self)@[ch as int], note)));
        assert(self.lfos() == old(self).lfos());
    }

    /// Plays channel `ch` with the selections of `preset`; see [`Synth::apply_preset`].
    pub fn set_instrument(&mut self, ch: Channel, preset: &Preset)
        requires
            old(self).wf(),
            ch < CHANNELS,
        ensures
            final(self).wf(),
            final(self)@ == old(self)@.update(ch as int, after_preset(old(self)@[ch as int], *preset)),
            final(self).lfos() == old(self).lfos().update(ch as int, preset.lfo_waveform),
    {
        self.channels[ch as usize].synth.apply_preset(preset);
        assert(self@ == old(self)@.update(ch as int, after_preset(old(self)@[ch as int], *preset)));
        assert(self.lfos() == old(self).lfos().update(ch as int, preset.lfo_waveform));
    }

    /// Advances every channel but the percussion channel by one sample.
    /// Returns how many voices sounded.
    pub fn next(&mut self) -> (sounding: usize)
        requires
            old(self).wf(),
        ensures
            final(self).wf(),
            forall|ch: int|
                0 <= ch < CHANNELS ==> #[trigger] final(self)@[ch] == if ch == PERCUSSION {
                    old(self)@[ch]
                } else {
                    after_sample(old(self)@[ch])
                },
            final(self).lfos() == old(self).lfos(),
            sounding == sounding_in(old(self)@, CHANNELS as int),
    {
        let mut sounding: usize = 0;
        let mut ch: usize = 0;
        while ch < CHANNELS
            invariant
                old(self).wf(),
                ch <= CHANNELS,
                self.channels@.len() == CHANNELS,
                sounding == sounding_in(old(self)@, ch as int),
                sounding <= ch * POLYPHONY,
                forall|c: int|
                    0 <= c < ch ==> (#[trigger] self.channels@[c]).synth@ == if c == PERCUSSION {
                        old(self)@[c]
                    } else {
                        after_sample(old(self)@[c])
                    },
                forall|c: int|
                    ch <= c < CHANNELS ==> (#[trigger] self.channels@[c]).synth@ == old(self)@[c],
                forall|c: int|
                    0 <= c < CHANNELS ==> (#[trigger] self.channels@[c]).synth.lfo() == old(
                        self,
                    ).lfos()[c],
            decreases CHANNELS - ch,
        {
            if is_played(ch as Channel) {
                proof {
                    lemma_active_count_bound(old(self)@[ch as int]);
                    assert(old(self)@[ch as int].len() == POLYPHONY);
                }
                let in_channel = self.channels[ch].next();
                sounding += in_channel;
            }
            ch += 1;
        }
        assert(self.lfos() == old(self).lfos());
        sounding
    }

    /// The synthesizer of channel `ch`, to be played voice by voice.
    pub fn synth_mut(&mut self, ch: Channel) -> (synth: &mut Synth)
        requires
            old(self).wf(),
            ch < CHANNELS,
        ensures
            synth@ == old(self)@[ch as int],
            synth.lfo() == old(self).lfos()[ch as int],
            final(self)@ == old(self)@.update(ch as int, final(synth)@),
            final(self).lfos() == old(self).lfos().update(ch as int, final(synth).lfo()),
    {
        &mut self.channels[ch as usize].synth
    }

    /// The synthesizer of channel `ch`.
    pub fn synth(&self, ch: Channel) -> (synth: &Synth)
        requires
            self.wf(),
            ch < CHANNELS,
        ensures
            synth@ == self@[ch as int],
            synth.lfo() == self.lfos()[ch as int],
    {
        &self.channels[ch as usize].synth
    }
}

} // verus!
