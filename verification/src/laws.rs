//! What holds of whole songs on the wire.

use crate::error::NbsErrorKind;
use crate::header::header_bytes;
use crate::header::lemma_header_round_trip;
use crate::header::parse_header;
use crate::noteblocks::instrument::canonical_instruments;
use crate::noteblocks::instrument::instruments_bytes;
use crate::noteblocks::instrument::lemma_instruments_round_trip;
use crate::noteblocks::laws::canonical_layers;
use crate::noteblocks::has_note;
use crate::noteblocks::instrument::lemma_decoded_instruments_are_canonical;
use crate::noteblocks::instrument::parse_instruments;
use crate::noteblocks::laws::follows_header;
use crate::noteblocks::laws::lemma_decoded_follows_header;
use crate::noteblocks::parse_noteblocks;
use crate::noteblocks::laws::lemma_noteblocks_round_trip;
use crate::noteblocks::noteblocks_bytes;
use crate::parse_song;
use crate::song_bytes;
use crate::NbsView;
use vstd::prelude::*;

verus! {

/// Whether the song has the shape that decoding gives and encoding keeps:
/// a canonical header that announces as many layers as there are, layers
/// and notes with their optional fields exactly where the version has
/// them, instruments classified by the count of built-in instruments that
/// the header gives, no note at a tick below zero, and custom instruments
/// with the ids that their places give them.
pub open spec fn canonical(song: NbsView) -> bool {
    &&& song.header.canonical()
    &&& song.header.layer_count == song.noteblocks.len()
    &&& song.header.vanilla_count() matches Some(first) && canonical_layers(
        song.noteblocks,
        first,
        song.header.format.version(),
    ) && canonical_instruments(song.custom_instruments, first)
}

/// Decoding undoes encoding. Where a canonical song can be written,
/// reading its bytes gives the song back field for field: the header, each
/// layer in its place, a note at a tick of a layer exactly where there was
/// one, and each custom instrument. What follows the song is left.
pub proof fn lemma_round_trip(song: NbsView, rest: Seq<u8>)
    requires
        canonical(song),
        song_bytes(song) is Some,
    ensures
        parse_song(song_bytes(song).unwrap() + rest) == Ok::<(NbsView, Seq<u8>), NbsErrorKind>(
            (song, rest),
        ),
{
    let format = song.header.format;
    let first = song.header.vanilla_count().unwrap();
    let header = header_bytes(song.header, format).unwrap();
    let noteblocks = noteblocks_bytes(song.noteblocks, format).unwrap();
    let instruments = instruments_bytes(song.custom_instruments).unwrap();
    lemma_instruments_round_trip(song.custom_instruments, first, rest);
    lemma_noteblocks_round_trip(song.noteblocks, song.header, first, instruments + rest);
    lemma_header_round_trip(song.header, noteblocks + (instruments + rest));
    assert(song_bytes(song).unwrap() + rest =~= header + (noteblocks + (instruments + rest)));
}

/// Whatever bytes a header is decoded from, it is canonical: the legacy
/// length decides the layout, and each optional field is present exactly
/// where the layout has it.
pub proof fn lemma_decoded_header_is_canonical(s: Seq<u8>)
    ensures
        parse_header(s) matches Ok((header, rest)) ==> header.canonical(),
{
    reveal(crate::header::take_lead);
    reveal(crate::header::take_loop);
}

/// Whatever bytes a song is decoded from, its header gates its optional
/// fields and classifies its instruments. Below version 4, the legacy
/// layout included, no note has velocity, panning or pitch and no layer
/// has a lock; from version 4 on every note and every layer has them.
/// Below version 2 no layer has a stereo position; from version 2 on every
/// layer has one. Every layer has a volume. An instrument id at or above
/// the count of built-in instruments, which is 10 in the legacy layout,
/// is a custom instrument, an id below it a built-in one.
pub proof fn lemma_decoded_song_follows_header(s: Seq<u8>)
    ensures
        parse_song(s) matches Ok((song, rest)) ==> follows_header(
            song.noteblocks,
            song.header.vanilla_count(),
            song.header.format.version(),
        ),
{
    if let Ok((header, s1)) = parse_header(s) {
        lemma_decoded_follows_header(s1, header);
    }
}

/// Whatever bytes a song is decoded from, it is canonical, if its header
/// announces no layer count below zero and no note lies at a tick below
/// zero: so it is read back from its own bytes where it can be written.
pub proof fn lemma_decoded_song_is_canonical(s: Seq<u8>)
    ensures
        parse_song(s) matches Ok((song, rest)) ==> {
            &&& song.header.canonical()
            &&& song.header.layer_count >= 0 && (forall|layer: int, tick: i16|
                has_note(song.noteblocks, layer, tick) ==> tick >= 0) ==> canonical(song)
        },
{
    reveal(canonical_layers);
    lemma_decoded_header_is_canonical(s);
    if let Ok((header, s1)) = parse_header(s) {
        lemma_decoded_follows_header(s1, header);
        if let Ok((layers, s2)) = parse_noteblocks(s1, header) {
            lemma_decoded_instruments_are_canonical(s2, header.vanilla_count());
        }
    }
}

} // verus!
