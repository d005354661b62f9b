//! Decoding and encoding of note block songs, in the legacy layout and in
//! versions 1 to 4 of the extended one.
//!
//! A song is a [`header::Header`], the [`noteblocks::NoteBlocks`] (layers
//! that hold notes by tick) and the table of
//! [`noteblocks::instrument::CustomInstruments`]. On the wire every number is
//! little-endian and every string is UTF-8 behind a 32-bit length. The codec
//! works on bytes in memory: it reads from a [`io::ByteReader`] over a slice
//! and appends to a `Vec<u8>`.
//!
//! What the functions do is stated over mathematical values: [`parse_song`]
//! says what decoding makes of a byte sequence, [`song_bytes`] what encoding
//! makes of a song, and [`laws::lemma_round_trip`] that the first undoes the
//! second.
//!
//! ## Changing a song
//!
//! ```rust,ignore
//! use nbs::io::ByteReader;
//! use nbs::noteblocks::instrument::{Instrument, COW_BELL};
//! use nbs::noteblocks::note::Note;
//! use nbs::Nbs;
//!
//! fn rename(bytes: &[u8]) -> Vec<u8> {
//!     let mut song = Nbs::decode(&mut ByteReader::new(bytes)).unwrap();
//!     song.noteblocks.layers[2].name = String::from("Cows");
//!     song.noteblocks.layers[2].volume = Some(25);
//!     song.noteblocks.layers[2].notes.insert(
//!         0,
//!         Note::new(Instrument::Vanilla(COW_BELL), 33, Some(100), Some(100), Some(0)),
//!     );
//!     song.update();
//!     let mut out = Vec::new();
//!     song.encode(&mut out).unwrap();
//!     out
//! }
//! ```
//!
//! ## Making a song
//!
//! ```rust,ignore
//! use nbs::header::Header;
//! use nbs::noteblocks::instrument::{CustomInstruments, Instrument, PIANO};
//! use nbs::noteblocks::layer::Layer;
//! use nbs::noteblocks::note::Note;
//! use nbs::noteblocks::NoteBlocks;
//! use nbs::{Nbs, NbsFormat};
//!
//! fn scale() -> Vec<u8> {
//!     let format = NbsFormat::OpenNoteBlockStudio(4);
//!     let mut header = Header::new(format);
//!     header.song_name = String::from("scale");
//!     let mut noteblocks = NoteBlocks::new();
//!     noteblocks.layers.push(Layer::from_format(format));
//!     for tick in 0..20 {
//!         let note =
//!             Note::new(Instrument::Vanilla(PIANO), 33 + tick as i8, Some(100), Some(100), Some(0));
//!         noteblocks.layers[0].notes.insert(tick, note);
//!     }
//!     let mut song = Nbs::from_componets(header, noteblocks, CustomInstruments::new());
//!     song.update();
//!     let mut out = Vec::new();
//!     song.encode(&mut out).unwrap();
//!     out
//! }
//! ```

use error::NbsError;
use header::header_bytes;
use header::nanos_of;
use header::parse_header;
use header::song_nanos;
use header::Header;
use header::HeaderView;
use io::join;
use io::ByteReader;
use io::Parsed;
use noteblocks::instrument::instruments_bytes;
use noteblocks::instrument::parse_instruments;
use noteblocks::instrument::CustomInstrumentView;
use noteblocks::instrument::CustomInstruments;
use noteblocks::is_length;
use noteblocks::layer::LayerView;
use noteblocks::length;
use noteblocks::noteblocks_bytes;
use noteblocks::parse_noteblocks;
use noteblocks::NoteBlocks;
use vstd::prelude::*;

pub mod error;
pub mod header;
pub mod io;
pub mod laws;
pub mod noteblocks;

verus! {

/// The layout of a song file.
#[derive(PartialEq, Eq, Debug, Clone, Copy, Structural)]
pub enum NbsFormat {
    /// The legacy layout: no version byte and none of the later fields.
    NoteBlockStudio,
    /// The extended layout, with its version.
    OpenNoteBlockStudio(i8),
}

impl NbsFormat {
    /// Whether this is the extended layout.
    pub open spec fn spec_is_new(&self) -> bool {
        self is OpenNoteBlockStudio
    }

    /// Whether this is the extended layout.
    #[verifier::when_used_as_spec(spec_is_new)]
    pub fn is_new(&self) -> (r: bool)
        ensures
            r == (self is OpenNoteBlockStudio),
    {
        match self {
            NbsFormat::NoteBlockStudio => false,
            NbsFormat::OpenNoteBlockStudio(_) => true,
        }
    }

    /// The version that gates the optional fields: 0 for the legacy layout.
    pub open spec fn spec_version(&self) -> i8 {
        match self {
            NbsFormat::NoteBlockStudio => 0,
            NbsFormat::OpenNoteBlockStudio(v) => *v,
        }
    }

    /// The version that gates the optional fields: 0 for the legacy layout.
    #[verifier::when_used_as_spec(spec_version)]
    pub fn version(&self) -> (r: i8)
        ensures
            r == self.spec_version(),
    {
        match self {
            NbsFormat::NoteBlockStudio => 0,
            NbsFormat::OpenNoteBlockStudio(v) => *v,
        }
    }
}

/// A song: its header, its note blocks and its custom instruments.
#[derive(Debug)]
pub struct Nbs {
    pub header: Header,
    pub noteblocks: NoteBlocks,
    pub custom_instruments: CustomInstruments,
}

/// A song as a mathematical value.
#[verifier::ext_equal]
pub struct NbsView {
    pub header: HeaderView,
    pub noteblocks: Seq<LayerView>,
    pub custom_instruments: Seq<CustomInstrumentView>,
}

impl View for Nbs {
    type V = NbsView;

    /// The song as the views of its three parts.
    open spec fn view(&self) -> NbsView {
        NbsView {
            header: self.header@,
            noteblocks: self.noteblocks@,
            custom_instruments: self.custom_instruments@,
        }
    }
}

impl NbsView {
    /// The song with the fields of its header that follow from the rest
    /// brought up to date. From version 3 on the length field becomes the
    /// length of the grid; at version 0 the legacy length does. Above
    /// version 0 the version field becomes that of the format. The layer
    /// count becomes the number of layers, cut to 16 bits.
    pub open spec fn updated(self) -> NbsView {
        let version = self.header.format.version();
        let ticks = length(self.noteblocks) as i16;
        NbsView {
            header: HeaderView {
                song_length: if version >= 3 {
                    Some(ticks)
                } else {
                    self.header.song_length
                },
                old_song_length: if version == 0 {
                    ticks
                } else {
                    self.header.old_song_length
                },
                version_number: if version > 0 {
                    Some(version)
                } else {
                    self.header.version_number
                },
                layer_count: self.noteblocks.len() as i16,
                ..self.header
            },
            ..self
        }
    }
}

/// A song on the wire: the header in its own format, the note blocks, and
/// the custom instruments.
pub open spec fn song_bytes(song: NbsView) -> Option<Seq<u8>> {
    join(
        header_bytes(song.header, song.header.format),
        join(
            noteblocks_bytes(song.noteblocks, song.header.format),
            instruments_bytes(song.custom_instruments),
        ),
    )
}

/// Reads a song from the front of `s`: the header, then the note blocks
/// and the custom instruments as the header tells.
pub open spec fn parse_song(s: Seq<u8>) -> Parsed<NbsView> {
    match parse_header(s) {
        Err(k) => Err(k),
        Ok((header, s)) => match parse_noteblocks(s, header) {
            Err(k) => Err(k),
            Ok((noteblocks, s)) => match parse_instruments(s, header.vanilla_count()) {
                Err(k) => Err(k),
                Ok((custom_instruments, s)) => Ok(
                    (NbsView { header, noteblocks, custom_instruments }, s),
                ),
            },
        },
    }
}

impl Nbs {
    /// A song made of the three parts.
    pub fn from_componets(
        header: Header,
        noteblocks: NoteBlocks,
        custom_instruments: CustomInstruments,
    ) -> (r: Self)
        ensures
            r.header == header,
            r.noteblocks == noteblocks,
            r.custom_instruments == custom_instruments,
    {
        Nbs { header, noteblocks, custom_instruments }
    }

    /// Reads a song. On failure the reader is left behind the last part
    /// that was read.
    fn read(reader: &mut ByteReader) -> (r: Result<Self, NbsError>)
        ensures
            match parse_song(old(reader).remaining()) {
                Ok((v, rest)) => r matches Ok(x) && x@ == v && final(reader).remaining() == rest,
                Err(k) => r matches Err(e) && e.kind() == k,
            },
    {
        let header = Header::decode(reader)?;
        let noteblocks = NoteBlocks::decode(reader, &header)?;
        let custom_instruments = CustomInstruments::decode(reader, &header)?;
        Ok(Nbs { header, noteblocks, custom_instruments })
    }

    /// Decodes a song from the bytes at the reader, which moves behind it.
    /// The failure is that of the first field that cannot be read: a source
    /// that ends inside a field, a string that is no UTF-8, or a structure
    /// that the format does not allow. On failure the reader stays where it
    /// was, and no part of a song is given.
    pub fn decode(reader: &mut ByteReader) -> (r: Result<Self, NbsError>)
        ensures
            match parse_song(old(reader).remaining()) {
                Ok((v, rest)) => r matches Ok(x) && x@ == v && final(reader).remaining() == rest,
                Err(k) => r matches Err(e) && e.kind() == k && *final(reader) == *old(reader),
            },
    {
        let mut cursor = *reader;
        match Self::read(&mut cursor) {
            Ok(song) => {
                *reader = cursor;
                Ok(song)
            },
            Err(e) => Err(e),
        }
    }

    /// Brings the fields of the header that follow from the rest of the
    /// song up to date: the length, the version and the layer count.
    pub fn update(&mut self)
        ensures
            final(self)@ == old(self)@.updated(),
    {
        let version = self.header.format.version();
        let ticks = self.noteblocks.calculate_length();
        if version >= 3 {
            self.header.song_length = Some(ticks);
        } else if version == 0 {
            self.header.old_song_length = ticks;
        }
        if version > 0 {
            self.header.version_number = Some(version);
        }
        self.header.layer_count = #[verifier::truncate]
        (self.noteblocks.layers.len() as i16);
    }

    /// Encodes the song in the format of its header and appends it to
    /// `writer`. Where a part of the song cannot be written, `writer` is
    /// left as it was.
    pub fn encode(&self, writer: &mut Vec<u8>) -> (r: Result<(), NbsError>)
        ensures
            match song_bytes(self@) {
                Some(b) => r is Ok && final(writer)@ == old(writer)@ + b,
                None => r matches Err(e) && e is InvalidFormat && final(writer)@ == old(writer)@,
            },
    {
        let format = self.format();
        let mut header = self.header.to_bytes(format)?;
        let mut noteblocks = self.noteblocks.to_bytes(format)?;
        let mut custom_instruments = self.custom_instruments.to_bytes()?;
        writer.append(&mut header);
        writer.append(&mut noteblocks);
        writer.append(&mut custom_instruments);
        Ok(())
    }

    /// The format of the song, which is that of its header.
    pub fn format(&self) -> (r: NbsFormat)
        ensures
            r == self@.header.format,
    {
        self.header.format
    }

    /// The length of the song in ticks: the greatest tick of any note, and
    /// 0 where no note lies beyond tick 0.
    pub fn song_ticks(&self) -> (r: i16)
        ensures
            is_length(self@.noteblocks, r as int),
            r == length(self@.noteblocks),
    {
        self.noteblocks.calculate_length()
    }

    /// The length of the song in whole nanoseconds: its length in ticks at
    /// the tempo of the header, which must be positive.
    pub fn song_length(&self) -> (r: u64)
        requires
            self@.header.song_tempo > 0,
        ensures
            r == song_nanos(length(self@.noteblocks), self@.header.song_tempo as int),
    {
        nanos_of(self.song_ticks(), self.header.song_tempo)
    }
}

} // verus!
