//! The header of a song: its metadata, and the fields that tell the layout
//! of everything behind it.

use crate::error::NbsError;
use crate::error::NbsErrorKind;
use crate::io::flag_bytes;
use crate::io::i16_le;
use crate::io::i32_le;
use crate::io::i8_bytes;
use crate::io::lemma_flag_round_trip;
use crate::io::lemma_i16_round_trip;
use crate::io::lemma_i32_round_trip;
use crate::io::lemma_i8_bytes_round_trip;
use crate::io::lemma_string_round_trip;
use crate::io::string_bytes;
use crate::io::take_flag;
use crate::io::take_i16;
use crate::io::take_i32;
use crate::io::take_i8;
use crate::io::take_string;
use crate::io::write_flag;
use crate::io::write_i16;
use crate::io::write_i32;
use crate::io::write_i8;
use crate::io::write_string;
use crate::io::ByteReader;
use crate::io::Parsed;
use crate::NbsFormat;
use vstd::prelude::*;

verus! {

/// The number of built-in instruments of the legacy layout.
pub const LEGACY_INSTRUMENT_COUNT: i8 = 10;

/// The header of a song.
#[derive(Debug)]
pub struct Header {
    /// The first two bytes of the file. The legacy layout keeps the length
    /// of the song in ticks here, which is never zero; the extended layout
    /// keeps them zero.
    pub(crate) old_song_length: i16,
    /// The version of the extended layout; absent in the legacy one.
    pub(crate) version_number: Option<i8>,
    /// The number of built-in instruments when the song was saved: the id
    /// at which custom instruments begin. Extended layout only.
    pub vannila_instrument_count: Option<i8>,
    /// The length of the song in ticks. Extended layout from version 3 on.
    pub(crate) song_length: Option<i16>,
    /// The number of layers in the layer table.
    pub layer_count: i16,
    /// The name of the song.
    pub song_name: String,
    /// The author of the song.
    pub song_author: String,
    /// The original author of the song.
    pub original_song_author: String,
    /// The description of the song.
    pub song_description: String,
    /// The tempo in ticks per second, times 100.
    pub song_tempo: i16,
    /// Whether auto-saving was on.
    pub auto_saving: bool,
    /// The minutes between two auto-saves.
    pub auto_saving_duration: i8,
    /// The time signature: 3 stands for 3/4.
    pub time_signature: i8,
    /// The minutes spent on the song.
    pub minutes_spent: i32,
    /// The number of left clicks.
    pub left_clicks: i32,
    /// The number of right clicks.
    pub right_clicks: i32,
    /// The number of note blocks added.
    pub noteblocks_added: i32,
    /// The number of note blocks removed.
    pub noteblocks_removed: i32,
    /// The name of the file that the song was imported from.
    pub imported_file_name: String,
    /// Whether the song loops. Extended layout only.
    pub is_loop: Option<bool>,
    /// How often the song loops; 0 for ever. Extended layout only.
    pub max_loop_count: Option<i8>,
    /// The tick that a loop goes back to. Extended layout only.
    pub loop_start_tick: Option<i16>,
    /// The layout that the header was read in, or is meant for. It is not a
    /// field of the file.
    pub format: NbsFormat,
}

/// A header as a mathematical value.
#[verifier::ext_equal]
pub struct HeaderView {
    pub old_song_length: i16,
    pub version_number: Option<i8>,
    pub vannila_instrument_count: Option<i8>,
    pub song_length: Option<i16>,
    pub layer_count: i16,
    pub song_name: Seq<char>,
    pub song_author: Seq<char>,
    pub original_song_author: Seq<char>,
    pub song_description: Seq<char>,
    pub song_tempo: i16,
    pub auto_saving: bool,
    pub auto_saving_duration: i8,
    pub time_signature: i8,
    pub minutes_spent: i32,
    pub left_clicks: i32,
    pub right_clicks: i32,
    pub noteblocks_added: i32,
    pub noteblocks_removed: i32,
    pub imported_file_name: Seq<char>,
    pub is_loop: Option<bool>,
    pub max_loop_count: Option<i8>,
    pub loop_start_tick: Option<i16>,
    pub format: NbsFormat,
}

impl View for Header {
    type V = HeaderView;

    /// The header field for field, each string as its characters.
    open(crate) spec fn view(&self) -> HeaderView {
        HeaderView {
            old_song_length: self.old_song_length,
            version_number: self.version_number,
            vannila_instrument_count: self.vannila_instrument_count,
            song_length: self.song_length,
            layer_count: self.layer_count,
            song_name: self.song_name@,
            song_author: self.song_author@,
            original_song_author: self.original_song_author@,
            song_description: self.song_description@,
            song_tempo: self.song_tempo,
            auto_saving: self.auto_saving,
            auto_saving_duration: self.auto_saving_duration,
            time_signature: self.time_signature,
            minutes_spent: self.minutes_spent,
            left_clicks: self.left_clicks,
            right_clicks: self.right_clicks,
            noteblocks_added: self.noteblocks_added,
            noteblocks_removed: self.noteblocks_removed,
            imported_file_name: self.imported_file_name@,
            is_loop: self.is_loop,
            max_loop_count: self.max_loop_count,
            loop_start_tick: self.loop_start_tick,
            format: self.format,
        }
    }
}

/// The length of `ticks` ticks at the tempo field `tempo`, in whole
/// nanoseconds: a tick lasts 100 / `tempo` seconds.
pub open spec fn song_nanos(ticks: int, tempo: int) -> int {
    ticks * 100_000_000_000 / tempo
}

impl HeaderView {
    /// The header that [`Header::new`] makes.
    pub open spec fn fresh(format: NbsFormat) -> HeaderView {
        HeaderView {
            old_song_length: 0,
            version_number: Some(format.version()),
            vannila_instrument_count: Some(16),
            song_length: Some(0),
            layer_count: 0,
            song_name: Seq::empty(),
            song_author: Seq::empty(),
            original_song_author: Seq::empty(),
            song_description: Seq::empty(),
            song_tempo: 1000,
            auto_saving: false,
            auto_saving_duration: 0,
            time_signature: 4,
            minutes_spent: 0,
            left_clicks: 0,
            right_clicks: 0,
            noteblocks_added: 0,
            noteblocks_removed: 0,
            imported_file_name: Seq::empty(),
            is_loop: Some(false),
            max_loop_count: Some(0),
            loop_start_tick: Some(0),
            format,
        }
    }

    /// The id at which custom instruments begin: 10 in the legacy layout,
    /// the stored count in the extended one, where it may be absent.
    pub open spec fn vanilla_count(self) -> Option<i8> {
        match self.format {
            NbsFormat::NoteBlockStudio => Some(LEGACY_INSTRUMENT_COUNT),
            NbsFormat::OpenNoteBlockStudio(_) => self.vannila_instrument_count,
        }
    }

    /// The length in ticks that the header states. The legacy layout and
    /// the extended one from version 3 on state one; versions below 3 state
    /// none, which is `Ok(None)`. A header of version 3 or more that lacks
    /// the field is malformed.
    pub open spec fn ticks(self) -> Result<Option<i16>, NbsErrorKind> {
        match self.format {
            NbsFormat::NoteBlockStudio => Ok(Some(self.old_song_length)),
            NbsFormat::OpenNoteBlockStudio(v) => if v >= 3 {
                match self.song_length {
                    Some(l) => Ok(Some(l)),
                    None => Err(NbsErrorKind::InvalidFormat),
                }
            } else {
                Ok(None)
            },
        }
    }

    /// Whether the first fields can be written in `format`: the version and
    /// the instrument count are present in the extended layout, and the
    /// length from version 3 on.
    pub open spec fn has_lead(self, format: NbsFormat) -> bool {
        &&& format.is_new() ==> self.version_number is Some && self.vannila_instrument_count
            is Some
        &&& format.version() >= 3 ==> self.song_length is Some
    }

    /// Whether each of the four strings fits its length prefix.
    pub open spec fn has_texts(self) -> bool {
        &&& string_bytes(self.song_name) is Some
        &&& string_bytes(self.song_author) is Some
        &&& string_bytes(self.original_song_author) is Some
        &&& string_bytes(self.song_description) is Some
    }

    /// Whether the last fields can be written in `format`: the name of the
    /// imported file fits its length prefix, and the loop fields are present
    /// in the extended layout.
    pub open spec fn has_tail(self, format: NbsFormat) -> bool {
        &&& string_bytes(self.imported_file_name) is Some
        &&& format.is_new() ==> self.is_loop is Some && self.max_loop_count is Some
            && self.loop_start_tick is Some
    }

    /// Whether the header can be written in `format`: the fields that
    /// `format` has are present, and every string fits its length prefix.
    pub open spec fn encodable(self, format: NbsFormat) -> bool {
        self.has_lead(format) && self.has_texts() && self.has_tail(format)
    }

    /// The first fields: the legacy length, then in the extended layout the
    /// version and the instrument count, from version 3 on the length, and
    /// the layer count.
    #[verifier::opaque]
    pub open spec fn lead(self, format: NbsFormat) -> Seq<u8> {
        i16_le(self.old_song_length) + (if format.is_new() {
            i8_bytes(self.version_number.unwrap()) + i8_bytes(
                self.vannila_instrument_count.unwrap(),
            )
        } else {
            Seq::empty()
        }) + (if format.version() >= 3 {
            i16_le(self.song_length.unwrap())
        } else {
            Seq::empty()
        }) + i16_le(self.layer_count)
    }

    /// The four strings: name, author, original author, description.
    #[verifier::opaque]
    pub open spec fn texts(self) -> Seq<u8> {
        string_bytes(self.song_name).unwrap() + string_bytes(self.song_author).unwrap()
            + string_bytes(self.original_song_author).unwrap() + string_bytes(
            self.song_description,
        ).unwrap()
    }

    /// The tempo, the auto-save fields, the time signature and the five
    /// counters.
    #[verifier::opaque]
    pub open spec fn stats(self) -> Seq<u8> {
        i16_le(self.song_tempo) + flag_bytes(self.auto_saving) + i8_bytes(
            self.auto_saving_duration,
        ) + i8_bytes(self.time_signature) + i32_le(self.minutes_spent) + i32_le(self.left_clicks)
            + i32_le(self.right_clicks) + i32_le(self.noteblocks_added) + i32_le(
            self.noteblocks_removed,
        )
    }

    /// The name of the imported file and, in the extended layout, the loop
    /// fields.
    #[verifier::opaque]
    pub open spec fn tail(self, format: NbsFormat) -> Seq<u8> {
        string_bytes(self.imported_file_name).unwrap() + (if format.is_new() {
            flag_bytes(self.is_loop.unwrap()) + i8_bytes(self.max_loop_count.unwrap()) + i16_le(
                self.loop_start_tick.unwrap(),
            )
        } else {
            Seq::empty()
        })
    }

    /// Whether the header has the shape that decoding gives: the legacy
    /// length is zero exactly in the extended layout, the version field is
    /// that of the format, and each optional field is present exactly where
    /// the format has it.
    pub open spec fn canonical(self) -> bool {
        match self.format {
            NbsFormat::NoteBlockStudio => {
                &&& self.old_song_length != 0
                &&& self.version_number is None
                &&& self.vannila_instrument_count is None
                &&& self.song_length is None
                &&& self.is_loop is None
                &&& self.max_loop_count is None
                &&& self.loop_start_tick is None
            },
            NbsFormat::OpenNoteBlockStudio(v) => {
                &&& self.old_song_length == 0
                &&& self.version_number == Some(v)
                &&& self.vannila_instrument_count is Some
                &&& (self.song_length is Some <==> v >= 3)
                &&& self.is_loop is Some
                &&& self.max_loop_count is Some
                &&& self.loop_start_tick is Some
            },
        }
    }
}

/// The bytes of a header written in `format`, where it can be written.
pub open spec fn header_bytes(h: HeaderView, format: NbsFormat) -> Option<Seq<u8>> {
    if h.encodable(format) {
        Some(h.lead(format) + h.texts() + h.stats() + h.tail(format))
    } else {
        None
    }
}

/// What the first fields of a header hold: the legacy length, the format
/// that it decides, the instrument count and the length where the format
/// has them, and the layer count.
pub struct Lead {
    pub old_song_length: i16,
    pub format: NbsFormat,
    pub vannila_instrument_count: Option<i8>,
    pub song_length: Option<i16>,
    pub layer_count: i16,
}

/// What the fixed-width middle of a header holds.
pub struct Stats {
    pub song_tempo: i16,
    pub auto_saving: bool,
    pub auto_saving_duration: i8,
    pub time_signature: i8,
    pub minutes_spent: i32,
    pub left_clicks: i32,
    pub right_clicks: i32,
    pub noteblocks_added: i32,
    pub noteblocks_removed: i32,
}

/// Reads the first fields of a header. A legacy length other than zero
/// makes the layout the legacy one; zero makes it the extended one, whose
/// version is the next byte, whatever its value.
#[verifier::opaque]
pub open spec fn take_lead(s: Seq<u8>) -> Parsed<Lead> {
    match take_i16(s) {
        Err(k) => Err(k),
        Ok((old_song_length, s)) => if old_song_length != 0 {
            match take_i16(s) {
                Err(k) => Err(k),
                Ok((layer_count, s)) => Ok(
                    (
                        Lead {
                            old_song_length,
                            format: NbsFormat::NoteBlockStudio,
                            vannila_instrument_count: None,
                            song_length: None,
                            layer_count,
                        },
                        s,
                    ),
                ),
            }
        } else {
            match take_i8(s) {
                Err(k) => Err(k),
                Ok((version, s)) => match take_i8(s) {
                    Err(k) => Err(k),
                    Ok((count, s)) => match take_length(s, version) {
                        Err(k) => Err(k),
                        Ok((song_length, s)) => match take_i16(s) {
                            Err(k) => Err(k),
                            Ok((layer_count, s)) => Ok(
                                (
                                    Lead {
                                        old_song_length,
                                        format: NbsFormat::OpenNoteBlockStudio(version),
                                        vannila_instrument_count: Some(count),
                                        song_length,
                                        layer_count,
                                    },
                                    s,
                                ),
                            ),
                        },
                    },
                },
            }
        },
    }
}

/// Reads the length field of the extended layout, which is there from
/// version 3 on.
pub open spec fn take_length(s: Seq<u8>, version: i8) -> Parsed<Option<i16>> {
    if version >= 3 {
        match take_i16(s) {
            Err(k) => Err(k),
            Ok((l, s)) => Ok((Some(l), s)),
        }
    } else {
        Ok((None, s))
    }
}

/// Reads the four strings of a header.
#[verifier::opaque]
pub open spec fn take_texts(s: Seq<u8>) -> Parsed<(Seq<char>, Seq<char>, Seq<char>, Seq<char>)> {
    match take_string(s) {
        Err(k) => Err(k),
        Ok((name, s)) => match take_string(s) {
            Err(k) => Err(k),
            Ok((author, s)) => match take_string(s) {
                Err(k) => Err(k),
                Ok((original, s)) => match take_string(s) {
                    Err(k) => Err(k),
                    Ok((description, s)) => Ok(((name, author, original, description), s)),
                },
            },
        },
    }
}

/// Reads the fixed-width middle of a header.
#[verifier::opaque]
pub open spec fn take_stats(s: Seq<u8>) -> Parsed<Stats> {
    match take_i16(s) {
        Err(k) => Err(k),
        Ok((song_tempo, s)) => match take_flag(s) {
            Err(k) => Err(k),
            Ok((auto_saving, s)) => match take_i8(s) {
                Err(k) => Err(k),
                Ok((auto_saving_duration, s)) => match take_i8(s) {
                    Err(k) => Err(k),
                    Ok((time_signature, s)) => match take_i32(s) {
                        Err(k) => Err(k),
                        Ok((minutes_spent, s)) => match take_i32(s) {
                            Err(k) => Err(k),
                            Ok((left_clicks, s)) => match take_i32(s) {
                                Err(k) => Err(k),
                                Ok((right_clicks, s)) => match take_i32(s) {
                                    Err(k) => Err(k),
                                    Ok((noteblocks_added, s)) => match take_i32(s) {
                                        Err(k) => Err(k),
                                        Ok((noteblocks_removed, s)) => Ok(
                                            (
                                                Stats {
                                                    song_tempo,
                                                    auto_saving,
                                                    auto_saving_duration,
                                                    time_signature,
                                                    minutes_spent,
                                                    left_clicks,
                                                    right_clicks,
                                                    noteblocks_added,
                                                    noteblocks_removed,
                                                },
                                                s,
                                            ),
                                        ),
                                    },
                                },
                            },
                        },
                    },
                },
            },
        },
    }
}

/// Reads the loop fields, which the extended layout has.
#[verifier::opaque]
pub open spec fn take_loop(s: Seq<u8>, format: NbsFormat) -> Parsed<
    (Option<bool>, Option<i8>, Option<i16>),
> {
    if format.is_new() {
        match take_flag(s) {
            Err(k) => Err(k),
            Ok((is_loop, s)) => match take_i8(s) {
                Err(k) => Err(k),
                Ok((count, s)) => match take_i16(s) {
                    Err(k) => Err(k),
                    Ok((start, s)) => Ok(((Some(is_loop), Some(count), Some(start)), s)),
                },
            },
        }
    } else {
        Ok(((None, None, None), s))
    }
}

/// Reads a header from the front of `s`.
pub open spec fn parse_header(s: Seq<u8>) -> Parsed<HeaderView> {
    match take_lead(s) {
        Err(k) => Err(k),
        Ok((lead, s)) => match take_texts(s) {
            Err(k) => Err(k),
            Ok((texts, s)) => match take_stats(s) {
                Err(k) => Err(k),
                Ok((stats, s)) => match take_string(s) {
                    Err(k) => Err(k),
                    Ok((imported_file_name, s)) => match take_loop(s, lead.format) {
                        Err(k) => Err(k),
                        Ok((looping, s)) => Ok(
                            (
                                HeaderView {
                                    old_song_length: lead.old_song_length,
                                    version_number: match lead.format {
                                        NbsFormat::NoteBlockStudio => None,
                                        NbsFormat::OpenNoteBlockStudio(v) => Some(v),
                                    },
                                    vannila_instrument_count: lead.vannila_instrument_count,
                                    song_length: lead.song_length,
                                    layer_count: lead.layer_count,
                                    song_name: texts.0,
                                    song_author: texts.1,
                                    original_song_author: texts.2,
                                    song_description: texts.3,
                                    song_tempo: stats.song_tempo,
                                    auto_saving: stats.auto_saving,
                                    auto_saving_duration: stats.auto_saving_duration,
                                    time_signature: stats.time_signature,
                                    minutes_spent: stats.minutes_spent,
                                    left_clicks: stats.left_clicks,
                                    right_clicks: stats.right_clicks,
                                    noteblocks_added: stats.noteblocks_added,
                                    noteblocks_removed: stats.noteblocks_removed,
                                    imported_file_name,
                                    is_loop: looping.0,
                                    max_loop_count: looping.1,
                                    loop_start_tick: looping.2,
                                    format: lead.format,
                                },
                                s,
                            ),
                        ),
                    },
                },
            },
        },
    }
}

impl Header {
    /// A header for `format` with no layers, tempo 10 ticks per second,
    /// time signature 4/4, empty strings and every optional field present.
    pub fn new(format: NbsFormat) -> (r: Self)
        ensures
            r@ == HeaderView::fresh(format),
    {
        Header {
            old_song_length: 0,
            version_number: Some(format.version()),
            vannila_instrument_count: Some(16),
            song_length: Some(0),
            layer_count: 0,
            song_name: String::new(),
            song_author: String::new(),
            original_song_author: String::new(),
            song_description: String::new(),
            song_tempo: 1000,
            auto_saving: false,
            auto_saving_duration: 0,
            time_signature: 4,
            minutes_spent: 0,
            left_clicks: 0,
            right_clicks: 0,
            noteblocks_added: 0,
            noteblocks_removed: 0,
            imported_file_name: String::new(),
            is_loop: Some(false),
            max_loop_count: Some(0),
            loop_start_tick: Some(0),
            format,
        }
    }

    /// Reads the first fields of a header, which decide the format.
    fn read_lead(reader: &mut ByteReader) -> (r: Result<Lead, NbsError>)
        ensures
            match take_lead(old(reader).remaining()) {
                Ok((v, rest)) => r matches Ok(x) && x == v && final(reader).remaining() == rest,
                Err(k) => r matches Err(e) && e.kind() == k,
            },
    {
        proof {
            reveal(take_lead);
        }
        let old_song_length = reader.read_i16()?;
        if old_song_length != 0 {
            let layer_count = reader.read_i16()?;
            Ok(
                Lead {
                    old_song_length,
                    format: NbsFormat::NoteBlockStudio,
                    vannila_instrument_count: None,
                    song_length: None,
                    layer_count,
                },
            )
        } else {
            let version = reader.read_i8()?;
            let count = reader.read_i8()?;
            let song_length = if version >= 3 {
                Some(reader.read_i16()?)
            } else {
                None
            };
            let layer_count = reader.read_i16()?;
            Ok(
                Lead {
                    old_song_length,
                    format: NbsFormat::OpenNoteBlockStudio(version),
                    vannila_instrument_count: Some(count),
                    song_length,
                    layer_count,
                },
            )
        }
    }

    /// Reads the fixed-width middle of a header.
    fn read_stats(reader: &mut ByteReader) -> (r: Result<Stats, NbsError>)
        ensures
            match take_stats(old(reader).remaining()) {
                Ok((v, rest)) => r matches Ok(x) && x == v && final(reader).remaining() == rest,
                Err(k) => r matches Err(e) && e.kind() == k,
            },
    {
        proof {
            reveal(take_stats);
        }
        let song_tempo = reader.read_i16()?;
        let auto_saving = reader.read_flag()?;
        let auto_saving_duration = reader.read_i8()?;
        let time_signature = reader.read_i8()?;
        let minutes_spent = reader.read_i32()?;
        let left_clicks = reader.read_i32()?;
        let right_clicks = reader.read_i32()?;
        let noteblocks_added = reader.read_i32()?;
        let noteblocks_removed = reader.read_i32()?;
        Ok(
            Stats {
                song_tempo,
                auto_saving,
                auto_saving_duration,
                time_signature,
                minutes_spent,
                left_clicks,
                right_clicks,
                noteblocks_added,
                noteblocks_removed,
            },
        )
    }

    /// Reads a header. On failure the reader is left at the field that
    /// failed.
    fn read(reader: &mut ByteReader) -> (r: Result<Self, NbsError>)
        ensures
            match parse_header(old(reader).remaining()) {
                Ok((v, rest)) => r matches Ok(x) && x@ == v && final(reader).remaining() == rest,
                Err(k) => r matches Err(e) && e.kind() == k,
            },
    {
        proof {
            reveal(take_texts);
            reveal(take_loop);
        }
        let lead = Self::read_lead(reader)?;
        let song_name = reader.read_string()?;
        let song_author = reader.read_string()?;
        let original_song_author = reader.read_string()?;
        let song_description = reader.read_string()?;
        let stats = Self::read_stats(reader)?;
        let imported_file_name = reader.read_string()?;
        let mut is_loop: Option<bool> = None;
        let mut max_loop_count: Option<i8> = None;
        let mut loop_start_tick: Option<i16> = None;
        if lead.format.is_new() {
            is_loop = Some(reader.read_flag()?);
            max_loop_count = Some(reader.read_i8()?);
            loop_start_tick = Some(reader.read_i16()?);
        }
        Ok(
            Header {
                old_song_length: lead.old_song_length,
                version_number: match lead.format {
                    NbsFormat::NoteBlockStudio => None,
                    NbsFormat::OpenNoteBlockStudio(v) => Some(v),
                },
                vannila_instrument_count: lead.vannila_instrument_count,
                song_length: lead.song_length,
                layer_count: lead.layer_count,
                song_name,
                song_author,
                original_song_author,
                song_description,
                song_tempo: stats.song_tempo,
                auto_saving: stats.auto_saving,
                auto_saving_duration: stats.auto_saving_duration,
                time_signature: stats.time_signature,
                minutes_spent: stats.minutes_spent,
                left_clicks: stats.left_clicks,
                right_clicks: stats.right_clicks,
                noteblocks_added: stats.noteblocks_added,
                noteblocks_removed: stats.noteblocks_removed,
                imported_file_name,
                is_loop,
                max_loop_count,
                loop_start_tick,
                format: lead.format,
            },
        )
    }

    /// Decodes a header from the bytes at the reader, which moves behind
    /// it. The layout comes from the first two bytes: other than zero they
    /// are the length of a legacy song; zero announces the extended layout
    /// and its version byte. On failure the reader stays where it was.
    pub fn decode(reader: &mut ByteReader) -> (r: Result<Self, NbsError>)
        ensures
            match parse_header(old(reader).remaining()) {
                Ok((v, rest)) => r matches Ok(x) && x@ == v && final(reader).remaining() == rest,
                Err(k) => r matches Err(e) && e.kind() == k && *final(reader) == *old(reader),
            },
    {
        let mut cursor = *reader;
        match Self::read(&mut cursor) {
            Ok(header) => {
                *reader = cursor;
                Ok(header)
            },
            Err(e) => Err(e),
        }
    }

    /// Appends the first fields of the header.
    fn write_lead(&self, format: NbsFormat, out: &mut Vec<u8>) -> (r: Result<(), NbsError>)
        ensures
            if self@.has_lead(format) {
                r is Ok && final(out)@ == old(out)@ + self@.lead(format)
            } else {
                r matches Err(e) && e is InvalidFormat
            },
    {
        proof {
            reveal(HeaderView::lead);
        }
        write_i16(out, self.old_song_length);
        if format.is_new() {
            match (self.version_number, self.vannila_instrument_count) {
                (Some(v), Some(c)) => {
                    write_i8(out, v);
                    write_i8(out, c);
                },
                _ => {
                    return Err(NbsError::InvalidFormat);
                },
            }
        }
        if format.version() >= 3 {
            match self.song_length {
                Some(l) => {
                    write_i16(out, l);
                },
                None => {
                    return Err(NbsError::InvalidFormat);
                },
            }
        }
        write_i16(out, self.layer_count);
        Ok(())
    }

    /// Appends the four strings of the header.
    fn write_texts(&self, out: &mut Vec<u8>) -> (r: Result<(), NbsError>)
        ensures
            if self@.has_texts() {
                r is Ok && final(out)@ == old(out)@ + self@.texts()
            } else {
                r matches Err(e) && e is InvalidFormat
            },
    {
        proof {
            reveal(HeaderView::texts);
        }
        write_string(out, self.song_name.as_str())?;
        write_string(out, self.song_author.as_str())?;
        write_string(out, self.original_song_author.as_str())?;
        write_string(out, self.song_description.as_str())?;
        Ok(())
    }

    /// Appends the fixed-width middle of the header.
    fn write_stats(&self, out: &mut Vec<u8>)
        ensures
            final(out)@ == old(out)@ + self@.stats(),
    {
        proof {
            reveal(HeaderView::stats);
        }
        write_i16(out, self.song_tempo);
        write_flag(out, self.auto_saving);
        write_i8(out, self.auto_saving_duration);
        write_i8(out, self.time_signature);
        write_i32(out, self.minutes_spent);
        write_i32(out, self.left_clicks);
        write_i32(out, self.right_clicks);
        write_i32(out, self.noteblocks_added);
        write_i32(out, self.noteblocks_removed);
    }

    /// Appends the name of the imported file and the loop fields.
    fn write_tail(&self, format: NbsFormat, out: &mut Vec<u8>) -> (r: Result<(), NbsError>)
        ensures
            if self@.has_tail(format) {
                r is Ok && final(out)@ == old(out)@ + self@.tail(format)
            } else {
                r matches Err(e) && e is InvalidFormat
            },
    {
        proof {
            reveal(HeaderView::tail);
        }
        write_string(out, self.imported_file_name.as_str())?;
        if format.is_new() {
            match (self.is_loop, self.max_loop_count, self.loop_start_tick) {
                (Some(is_loop), Some(count), Some(start)) => {
                    write_flag(out, is_loop);
                    write_i8(out, count);
                    write_i16(out, start);
                },
                _ => {
                    return Err(NbsError::InvalidFormat);
                },
            }
        }
        Ok(())
    }

    /// Appends the header in `format`. On failure `out` may hold a part of
    /// it.
    fn write(&self, format: NbsFormat, out: &mut Vec<u8>) -> (r: Result<(), NbsError>)
        ensures
            match header_bytes(self@, format) {
                Some(b) => r is Ok && final(out)@ == old(out)@ + b,
                None => r matches Err(e) && e is InvalidFormat,
            },
    {
        let ghost h = self@;
        self.write_lead(format, out)?;
        self.write_texts(out)?;
        self.write_stats(out);
        self.write_tail(format, out)?;
        assert(out@ =~= old(out)@ + (h.lead(format) + h.texts() + h.stats() + h.tail(format)));
        Ok(())
    }

    /// The bytes of the header in `format`, or the failure where a field
    /// that `format` has is absent or a string is too long.
    pub(crate) fn to_bytes(&self, format: NbsFormat) -> (r: Result<Vec<u8>, NbsError>)
        ensures
            match header_bytes(self@, format) {
                Some(b) => r matches Ok(v) && v@ == b,
                None => r matches Err(e) && e is InvalidFormat,
            },
    {
        let mut out: Vec<u8> = Vec::new();
        match self.write(format, &mut out) {
            Ok(()) => {
                Ok(out)
            },
            Err(e) => Err(e),
        }
    }

    /// Encodes the header in `format` and appends it to `writer`, field for
    /// field as [`Header::decode`] reads it. Where a field that `format` has
    /// is absent, or a string is longer than a 32-bit length can say, the
    /// header cannot be written: `writer` is then left as it was.
    pub fn encode(&self, format: NbsFormat, writer: &mut Vec<u8>) -> (r: Result<(), NbsError>)
        ensures
            match header_bytes(self@, format) {
                Some(b) => r is Ok && final(writer)@ == old(writer)@ + b,
                None => r matches Err(e) && e is InvalidFormat && final(writer)@ == old(writer)@,
            },
    {
        let mut bytes = self.to_bytes(format)?;
        writer.append(&mut bytes);
        Ok(())
    }

    /// The id at which custom instruments begin: 10 in the legacy layout,
    /// the stored count in the extended one. An extended header without the
    /// count is malformed.
    pub fn vannila_instrument_count(&self) -> (r: Result<i8, NbsError>)
        ensures
            match self@.vanilla_count() {
                Some(c) => r matches Ok(x) && x == c,
                None => r matches Err(e) && e is InvalidFormat,
            },
    {
        match self.format {
            NbsFormat::NoteBlockStudio => Ok(LEGACY_INSTRUMENT_COUNT),
            NbsFormat::OpenNoteBlockStudio(_) => match self.vannila_instrument_count {
                Some(c) => Ok(c),
                None => Err(NbsError::InvalidFormat),
            },
        }
    }

    /// The length of the song in ticks as the header states it. The legacy
    /// layout and versions from 3 on state one. Versions 1 and 2 state
    /// none: the result is then `None`, which is not a length of zero.
    pub fn song_ticks(&self) -> (r: Result<Option<i16>, NbsError>)
        ensures
            match self@.ticks() {
                Ok(t) => r matches Ok(x) && x == t,
                Err(k) => r matches Err(e) && e.kind() == k,
            },
    {
        match self.format {
            NbsFormat::NoteBlockStudio => Ok(Some(self.old_song_length)),
            NbsFormat::OpenNoteBlockStudio(v) => {
                if v >= 3 {
                    match self.song_length {
                        Some(l) => Ok(Some(l)),
                        None => Err(NbsError::InvalidFormat),
                    }
                } else {
                    Ok(None)
                }
            },
        }
    }

    /// The length of the song as the header states it, in whole
    /// nanoseconds, or `None` where the header states no length in ticks.
    /// Where it states one, the tempo must be positive and the stated
    /// length not negative.
    pub fn song_length(&self) -> (r: Result<Option<u64>, NbsError>)
        requires
            self@.ticks() matches Ok(Some(t)) ==> t >= 0 && self@.song_tempo > 0,
        ensures
            match self@.ticks() {
                Ok(Some(t)) => r matches Ok(Some(n)) && n == song_nanos(
                    t as int,
                    self@.song_tempo as int,
                ),
                Ok(None) => r matches Ok(None),
                Err(k) => r matches Err(e) && e.kind() == k,
            },
    {
        match self.song_ticks()? {
            Some(t) => Ok(Some(nanos_of(t, self.song_tempo))),
            None => Ok(None),
        }
    }
}

/// The length of `ticks` ticks at the tempo field `tempo`, in whole
/// nanoseconds.
pub(crate) fn nanos_of(ticks: i16, tempo: i16) -> (n: u64)
    requires
        ticks >= 0,
        tempo > 0,
    ensures
        n == song_nanos(ticks as int, tempo as int),
{
    (ticks as u64) * 100_000_000_000 / (tempo as u64)
}

/// Reading the first fields of a canonical header from their bytes gives
/// them back.
proof fn lemma_lead_round_trip(h: HeaderView, rest: Seq<u8>)
    requires
        h.canonical(),
    ensures
        take_lead(h.lead(h.format) + rest) == Ok::<(Lead, Seq<u8>), NbsErrorKind>(
            (
                Lead {
                    old_song_length: h.old_song_length,
                    format: h.format,
                    vannila_instrument_count: h.vannila_instrument_count,
                    song_length: h.song_length,
                    layer_count: h.layer_count,
                },
                rest,
            ),
        ),
{
    reveal(HeaderView::lead);
    reveal(take_lead);
    let last = i16_le(h.layer_count) + rest;
    lemma_i16_round_trip(h.layer_count, rest);
    match h.format {
        NbsFormat::NoteBlockStudio => {
            lemma_i16_round_trip(h.old_song_length, last);
            assert(h.lead(h.format) + rest =~= i16_le(h.old_song_length) + last);
        },
        NbsFormat::OpenNoteBlockStudio(v) => {
            let c = h.vannila_instrument_count.unwrap();
            let len = if v >= 3 {
                i16_le(h.song_length.unwrap()) + last
            } else {
                last
            };
            if v >= 3 {
                lemma_i16_round_trip(h.song_length.unwrap(), last);
            }
            lemma_i8_bytes_round_trip(c, len);
            lemma_i8_bytes_round_trip(v, i8_bytes(c) + len);
            lemma_i16_round_trip(h.old_song_length, i8_bytes(v) + (i8_bytes(c) + len));
            assert(h.lead(h.format) + rest =~= i16_le(h.old_song_length) + (i8_bytes(v) + (
            i8_bytes(c) + len)));
        },
    }
}

/// Reading the four strings of a header from their bytes gives them back.
proof fn lemma_texts_round_trip(h: HeaderView, rest: Seq<u8>)
    requires
        h.encodable(h.format),
    ensures
        take_texts(h.texts() + rest) == Ok::<
            ((Seq<char>, Seq<char>, Seq<char>, Seq<char>), Seq<u8>),
            NbsErrorKind,
        >(((h.song_name, h.song_author, h.original_song_author, h.song_description), rest)),
{
    reveal(HeaderView::texts);
    reveal(take_texts);
    let d = string_bytes(h.song_description).unwrap() + rest;
    let c = string_bytes(h.original_song_author).unwrap() + d;
    let b = string_bytes(h.song_author).unwrap() + c;
    lemma_string_round_trip(h.song_description, rest);
    lemma_string_round_trip(h.original_song_author, d);
    lemma_string_round_trip(h.song_author, c);
    lemma_string_round_trip(h.song_name, b);
    assert(h.texts() + rest =~= string_bytes(h.song_name).unwrap() + b);
}

/// Reading the fixed-width middle of a header from its bytes gives it back.
#[verifier::rlimit(50)]
proof fn lemma_stats_round_trip(h: HeaderView, rest: Seq<u8>)
    ensures
        take_stats(h.stats() + rest) == Ok::<(Stats, Seq<u8>), NbsErrorKind>(
            (
                Stats {
                    song_tempo: h.song_tempo,
                    auto_saving: h.auto_saving,
                    auto_saving_duration: h.auto_saving_duration,
                    time_signature: h.time_signature,
                    minutes_spent: h.minutes_spent,
                    left_clicks: h.left_clicks,
                    right_clicks: h.right_clicks,
                    noteblocks_added: h.noteblocks_added,
                    noteblocks_removed: h.noteblocks_removed,
                },
                rest,
            ),
        ),
{
    reveal(HeaderView::stats);
    reveal(take_stats);
    let s9 = i32_le(h.noteblocks_removed) + rest;
    let s8 = i32_le(h.noteblocks_added) + s9;
    let s7 = i32_le(h.right_clicks) + s8;
    let s6 = i32_le(h.left_clicks) + s7;
    let s5 = i32_le(h.minutes_spent) + s6;
    let s4 = i8_bytes(h.time_signature) + s5;
    let s3 = i8_bytes(h.auto_saving_duration) + s4;
    let s2 = flag_bytes(h.auto_saving) + s3;
    lemma_i32_round_trip(h.noteblocks_removed, rest);
    lemma_i32_round_trip(h.noteblocks_added, s9);
    lemma_i32_round_trip(h.right_clicks, s8);
    lemma_i32_round_trip(h.left_clicks, s7);
    lemma_i32_round_trip(h.minutes_spent, s6);
    lemma_i8_bytes_round_trip(h.time_signature, s5);
    lemma_i8_bytes_round_trip(h.auto_saving_duration, s4);
    lemma_flag_round_trip(h.auto_saving, s3);
    lemma_i16_round_trip(h.song_tempo, s2);
    assert(h.stats() + rest =~= i16_le(h.song_tempo) + s2);
}

/// Reading the name of the imported file and the loop fields of a
/// canonical header from their bytes gives them back.
proof fn lemma_tail_round_trip(h: HeaderView, rest: Seq<u8>)
    requires
        h.canonical(),
        h.encodable(h.format),
    ensures
        take_string(h.tail(h.format) + rest) matches Ok((name, s)) && name == h.imported_file_name
            && take_loop(s, h.format) == Ok::<
            ((Option<bool>, Option<i8>, Option<i16>), Seq<u8>),
            NbsErrorKind,
        >(((h.is_loop, h.max_loop_count, h.loop_start_tick), rest)),
{
    reveal(HeaderView::tail);
    reveal(take_loop);
    if h.format.is_new() {
        let s3 = i16_le(h.loop_start_tick.unwrap()) + rest;
        let s2 = i8_bytes(h.max_loop_count.unwrap()) + s3;
        let s1 = flag_bytes(h.is_loop.unwrap()) + s2;
        lemma_i16_round_trip(h.loop_start_tick.unwrap(), rest);
        lemma_i8_bytes_round_trip(h.max_loop_count.unwrap(), s3);
        lemma_flag_round_trip(h.is_loop.unwrap(), s2);
        lemma_string_round_trip(h.imported_file_name, s1);
        assert(h.tail(h.format) + rest =~= string_bytes(h.imported_file_name).unwrap() + s1);
    } else {
        lemma_string_round_trip(h.imported_file_name, rest);
    }
}

/// Decoding the bytes of a canonical header, written in its own format,
/// gives the header back, field for field, and leaves what follows the
/// header.
#[verifier::rlimit(50)]
pub proof fn lemma_header_round_trip(h: HeaderView, rest: Seq<u8>)
    requires
        h.canonical(),
        header_bytes(h, h.format) is Some,
    ensures
        parse_header(header_bytes(h, h.format).unwrap() + rest) == Ok::<
            (HeaderView, Seq<u8>),
            NbsErrorKind,
        >((h, rest)),
{
    let f = h.format;
    let s4 = h.tail(f) + rest;
    let s3 = h.stats() + s4;
    let s2 = h.texts() + s3;
    lemma_tail_round_trip(h, rest);
    lemma_stats_round_trip(h, s4);
    lemma_texts_round_trip(h, s3);
    lemma_lead_round_trip(h, s2);
    assert(header_bytes(h, f).unwrap() + rest =~= h.lead(f) + s2);
}

/// Writing a header in the extended layout fails where one of its loop
/// fields is absent.
pub proof fn lemma_missing_loop_field(h: HeaderView, format: NbsFormat)
    requires
        format.is_new(),
        h.is_loop is None || h.max_loop_count is None || h.loop_start_tick is None,
    ensures
        header_bytes(h, format) is None,
{
}

} // verus!
