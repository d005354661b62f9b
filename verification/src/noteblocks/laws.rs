//! What holds of the note blocks on the wire: decoding undoes encoding, and
//! what is decoded has its optional fields where the version has them.

use super::blank_layers;
use super::grid_bytes;
use super::has_note;
use super::instrument::Instrument;
use super::layer::layer_bytes;
use super::layer::lemma_layer_round_trip;
use super::layer::lemma_take_layer;
use super::layer::take_layer;
use super::layer::LayerView;
use super::lemma_parse_row;
use super::note::lemma_note_round_trip;
use super::note::lemma_take_note;
use super::note::note_bytes;
use super::note::take_note;
use super::noteblocks_bytes;
use super::parse_noteblocks;
use super::parse_row;
use super::parse_rows;
use super::parse_table;
use super::put_note;
use super::row_bytes;
use super::row_has_notes;
use super::rows_bytes;
use super::table_bytes;
use crate::error::NbsErrorKind;
use crate::header::HeaderView;
use crate::io::i16_le;
use crate::io::lemma_i16_round_trip;
use crate::io::take_i16;
use crate::NbsFormat;
use vstd::prelude::*;

verus! {

/// Whether the layers have the shape that decoding gives and encoding
/// keeps, where `first` built-in instruments exist: no more layers than a
/// header can announce, the settings of each layer and the optional fields
/// of each note exactly where `version` has them, each instrument
/// classified by `first`, and no note at a tick below zero.
#[verifier::opaque]
pub open spec fn canonical_layers(layers: Seq<LayerView>, first: i8, version: i8) -> bool {
    &&& layers.len() <= i16::MAX
    &&& forall|layer: int| 0 <= layer < layers.len() ==> (#[trigger] layers[layer]).follows(version)
    &&& forall|layer: int, tick: i16| #[trigger]
        has_note(layers, layer, tick) ==> {
            let note = layers[layer].notes[tick];
            &&& tick >= 0
            &&& note.follows(version)
            &&& note.instrument == Instrument::classify(note.instrument.id(), first)
        }
}

/// Whether the layers are as decoding leaves them under a header that
/// gives the count `vanilla` of built-in instruments and the version
/// `version`: every layer has its settings exactly where the version has
/// them, and every note is as [`notes_follow`] says.
pub open spec fn follows_header(layers: Seq<LayerView>, vanilla: Option<i8>, version: i8) -> bool {
    &&& forall|layer: int| 0 <= layer < layers.len() ==> (#[trigger] layers[layer]).follows(version)
    &&& notes_follow(layers, vanilla, version)
}

/// Whether every note has its optional fields exactly where `version` has
/// them, and its instrument classified by the count `vanilla` of built-in
/// instruments: a custom one from the count on, a built-in one below.
/// Without a count there is no note.
pub open spec fn notes_follow(layers: Seq<LayerView>, vanilla: Option<i8>, version: i8) -> bool {
    forall|layer: int, tick: i16| #[trigger]
        has_note(layers, layer, tick) ==> {
            let note = layers[layer].notes[tick];
            &&& note.follows(version)
            &&& vanilla matches Some(first) && note.instrument == Instrument::classify(
                note.instrument.id(),
                first,
            )
        }
}

/// The grid while it is decoded: blank layers that hold the notes of
/// `layers` before `tick`, and those at `tick` in the layers before
/// `layer`.
#[verifier::opaque]
pub open spec fn decoded_so_far(
    layers: Seq<LayerView>,
    format: NbsFormat,
    tick: int,
    layer: int,
) -> Seq<LayerView> {
    Seq::new(
        layers.len(),
        |l: int|
            LayerView {
                notes: Map::new(
                    |t: i16| layers[l].notes.contains_key(t) && (t < tick || (t == tick && l < layer)),
                    |t: i16| layers[l].notes[t],
                ),
                ..LayerView::blank(format)
            },
    )
}

/// The layers while their table is decoded: those before `from` as they
/// are, the others blank but for their notes.
pub open spec fn table_so_far(layers: Seq<LayerView>, format: NbsFormat, from: int) -> Seq<
    LayerView,
> {
    Seq::new(
        layers.len(),
        |l: int|
            if l < from {
                layers[l]
            } else {
                LayerView { notes: layers[l].notes, ..LayerView::blank(format) }
            },
    )
}

/// Reading the records of a row from the layer `from` on, from their
/// bytes and the zero that ends the row, puts the notes of the row into
/// the layers.
#[verifier::rlimit(50)]
proof fn lemma_row_round_trip(
    layers: Seq<LayerView>,
    format: NbsFormat,
    first: i8,
    tick: i16,
    from: int,
    cursor: int,
    rest: Seq<u8>,
)
    requires
        canonical_layers(layers, first, format.version()),
        0 <= tick,
        0 <= from <= layers.len(),
        -1 <= cursor < from,
        row_bytes(layers, tick, from, cursor, format.version()) is Some,
    ensures
        parse_row(
            row_bytes(layers, tick, from, cursor, format.version()).unwrap() + (i16_le(0) + rest),
            decoded_so_far(layers, format, tick as int, from),
            tick,
            cursor,
            Some(first),
            format.version(),
        ) == Ok::<(Seq<LayerView>, Seq<u8>), NbsErrorKind>(
            (decoded_so_far(layers, format, tick + 1, 0), rest),
        ),
    decreases layers.len() - from,
{
    reveal(decoded_so_far);
    reveal(canonical_layers);
    let version = format.version();
    let row = row_bytes(layers, tick, from, cursor, version).unwrap();
    let state = decoded_so_far(layers, format, tick as int, from);
    if from >= layers.len() {
        lemma_i16_round_trip(0, rest);
        assert(state =~~= decoded_so_far(layers, format, tick + 1, 0));
    } else if !layers[from].notes.contains_key(tick) {
        lemma_row_round_trip(layers, format, first, tick, from + 1, cursor, rest);
        assert(state =~~= decoded_so_far(layers, format, tick as int, from + 1));
    } else {
        let note = layers[from].notes[tick];
        assert(has_note(layers, from, tick));
        let jump = (from - cursor) as i16;
        let tail = row_bytes(layers, tick, from + 1, from, version).unwrap();
        let behind_note = tail + (i16_le(0) + rest);
        let behind_jump = note_bytes(note, version).unwrap() + behind_note;
        lemma_note_round_trip(note, first, version, behind_note);
        lemma_i16_round_trip(jump, behind_jump);
        lemma_row_round_trip(layers, format, first, tick, from + 1, from, rest);
        assert(row + (i16_le(0) + rest) =~= i16_le(jump) + behind_jump);
        assert(put_note(state, from, tick, note) =~~= decoded_so_far(
            layers,
            format,
            tick as int,
            from + 1,
        ));
    }
}

/// A tick without notes adds nothing to the grid while it is decoded.
proof fn lemma_empty_row_adds_nothing(layers: Seq<LayerView>, format: NbsFormat, tick: int)
    requires
        i16::MIN <= tick <= i16::MAX,
        !row_has_notes(layers, tick as i16),
    ensures
        decoded_so_far(layers, format, tick, 0) == decoded_so_far(layers, format, tick + 1, 0),
{
    reveal(decoded_so_far);
    assert forall|l: int| 0 <= l < layers.len() implies !layers[l].notes.contains_key(
        tick as i16,
    ) by {
        if layers[l].notes.contains_key(tick as i16) {
            assert(has_note(layers, l, tick as i16));
        }
    }
    assert(decoded_so_far(layers, format, tick, 0) =~~= decoded_so_far(layers, format, tick + 1, 0));
}

/// Reading a tick jump, a row and the rows behind it gives what reading
/// the row and then the rows behind it gives.
proof fn lemma_rows_step(
    row: Seq<u8>,
    behind: Seq<u8>,
    state: Seq<LayerView>,
    after_row: Seq<LayerView>,
    cursor: i16,
    tick: i16,
    vanilla: Option<i8>,
    version: i8,
)
    requires
        cursor < tick,
        tick - cursor <= i16::MAX,
        parse_row(row + (i16_le(0) + behind), state, tick, -1, vanilla, version) == Ok::<
            (Seq<LayerView>, Seq<u8>),
            NbsErrorKind,
        >((after_row, behind)),
    ensures
        parse_rows(
            i16_le((tick - cursor) as i16) + (row + (i16_le(0) + behind)),
            state,
            cursor,
            vanilla,
            version,
        ) == parse_rows(behind, after_row, tick, vanilla, version),
{
    let jump = (tick - cursor) as i16;
    lemma_i16_round_trip(jump, row + (i16_le(0) + behind));
}

/// Reading the rows from `tick` on, from their bytes, puts the notes of
/// all the rows into the layers.
proof fn lemma_rows_round_trip(
    layers: Seq<LayerView>,
    format: NbsFormat,
    first: i8,
    tick: int,
    cursor: int,
    rest: Seq<u8>,
)
    requires
        canonical_layers(layers, first, format.version()),
        0 <= tick <= i16::MAX + 1,
        -1 <= cursor < tick,
        rows_bytes(layers, tick, cursor, format.version()) is Some,
    ensures
        parse_rows(
            rows_bytes(layers, tick, cursor, format.version()).unwrap() + rest,
            decoded_so_far(layers, format, tick, 0),
            cursor as i16,
            Some(first),
            format.version(),
        ) == Ok::<(Seq<LayerView>, Seq<u8>), NbsErrorKind>(
            (decoded_so_far(layers, format, i16::MAX + 1, 0), rest),
        ),
    decreases i16::MAX + 1 - tick,
{
    if tick > i16::MAX {
        lemma_i16_round_trip(0, rest);
    } else if !row_has_notes(layers, tick as i16) {
        lemma_rows_round_trip(layers, format, first, tick + 1, cursor, rest);
        lemma_rows_over_empty_row(layers, format, first, tick, cursor, rest);
    } else {
        lemma_rows_round_trip(layers, format, first, tick + 1, tick, rest);
        lemma_rows_over_row(layers, format, first, tick, cursor, rest);
    }
}

/// What reading the rows from `tick` on gives, from their bytes and with
/// the notes before `tick` in the layers.
spec fn rows_read(
    layers: Seq<LayerView>,
    format: NbsFormat,
    first: i8,
    tick: int,
    cursor: int,
    rest: Seq<u8>,
) -> Result<(Seq<LayerView>, Seq<u8>), NbsErrorKind> {
    parse_rows(
        rows_bytes(layers, tick, cursor, format.version()).unwrap() + rest,
        decoded_so_far(layers, format, tick, 0),
        cursor as i16,
        Some(first),
        format.version(),
    )
}

/// Reading the rows from a tick without notes on is reading the rows from
/// the next tick on.
proof fn lemma_rows_over_empty_row(
    layers: Seq<LayerView>,
    format: NbsFormat,
    first: i8,
    tick: int,
    cursor: int,
    rest: Seq<u8>,
)
    requires
        0 <= tick <= i16::MAX,
        -1 <= cursor < tick,
        !row_has_notes(layers, tick as i16),
        rows_bytes(layers, tick, cursor, format.version()) is Some,
    ensures
        rows_bytes(layers, tick + 1, cursor, format.version()) is Some,
        rows_read(layers, format, first, tick, cursor, rest) == rows_read(
            layers,
            format,
            first,
            tick + 1,
            cursor,
            rest,
        ),
{
    lemma_empty_row_adds_nothing(layers, format, tick);
}

/// Reading the rows from a tick with notes on is reading the rows from the
/// next tick on, with the tick cursor at the tick.
#[verifier::rlimit(50)]
proof fn lemma_rows_over_row(
    layers: Seq<LayerView>,
    format: NbsFormat,
    first: i8,
    tick: int,
    cursor: int,
    rest: Seq<u8>,
)
    requires
        canonical_layers(layers, first, format.version()),
        0 <= tick <= i16::MAX,
        -1 <= cursor < tick,
        row_has_notes(layers, tick as i16),
        rows_bytes(layers, tick, cursor, format.version()) is Some,
    ensures
        rows_bytes(layers, tick + 1, tick, format.version()) is Some,
        rows_read(layers, format, first, tick, cursor, rest) == rows_read(
            layers,
            format,
            first,
            tick + 1,
            tick,
            rest,
        ),
{
    let version = format.version();
    let rows = rows_bytes(layers, tick, cursor, version).unwrap();
    let t = tick as i16;
    let row = row_bytes(layers, t, 0, -1, version).unwrap();
    let tail = rows_bytes(layers, tick + 1, tick, version).unwrap();
    lemma_row_round_trip(layers, format, first, t, 0, -1, tail + rest);
    lemma_rows_step(
        row,
        tail + rest,
        decoded_so_far(layers, format, tick, 0),
        decoded_so_far(layers, format, tick + 1, 0),
        cursor as i16,
        t,
        Some(first),
        version,
    );
    assert(rows + rest =~= i16_le((tick - cursor) as i16) + (row + (i16_le(0) + (tail + rest))));
}

/// Reading the layer table from the layer `from` on, from its bytes, gives
/// the layers their settings back.
proof fn lemma_table_round_trip(
    layers: Seq<LayerView>,
    format: NbsFormat,
    first: i8,
    from: int,
    rest: Seq<u8>,
)
    requires
        canonical_layers(layers, first, format.version()),
        0 <= from <= layers.len(),
        table_bytes(layers, from, format.version()) is Some,
    ensures
        parse_table(
            table_bytes(layers, from, format.version()).unwrap() + rest,
            table_so_far(layers, format, from),
            from,
            format.version(),
        ) == Ok::<(Seq<LayerView>, Seq<u8>), NbsErrorKind>((layers, rest)),
    decreases layers.len() - from,
{
    reveal(canonical_layers);
    let version = format.version();
    let table = table_bytes(layers, from, version).unwrap();
    let state = table_so_far(layers, format, from);
    if from >= layers.len() {
        assert(state =~~= layers);
    } else {
        let entry = layer_bytes(layers[from], version).unwrap();
        let tail = table_bytes(layers, from + 1, version).unwrap();
        lemma_layer_round_trip(layers[from], state[from], version, tail + rest);
        lemma_table_round_trip(layers, format, first, from + 1, rest);
        assert(table + rest =~= entry + (tail + rest));
        assert(state.update(from, layers[from]) =~~= table_so_far(layers, format, from + 1));
    }
}

/// Decoding the bytes of canonical note blocks, under a header that
/// announces as many layers as there are and gives the count of built-in
/// instruments, gives the note blocks back: each layer in its place with
/// its settings, and a note at a tick of a layer exactly where there was
/// one. What follows the note blocks is left.
pub proof fn lemma_noteblocks_round_trip(
    layers: Seq<LayerView>,
    header: HeaderView,
    first: i8,
    rest: Seq<u8>,
)
    requires
        canonical_layers(layers, first, header.format.version()),
        header.layer_count == layers.len(),
        header.vanilla_count() == Some(first),
        noteblocks_bytes(layers, header.format) is Some,
    ensures
        parse_noteblocks(noteblocks_bytes(layers, header.format).unwrap() + rest, header) == Ok::<
            (Seq<LayerView>, Seq<u8>),
            NbsErrorKind,
        >((layers, rest)),
{
    reveal(decoded_so_far);
    reveal(canonical_layers);
    let format = header.format;
    let version = format.version();
    let grid = grid_bytes(layers, version).unwrap();
    let table = table_bytes(layers, 0, version).unwrap();
    lemma_rows_round_trip(layers, format, first, 0, -1, table + rest);
    lemma_table_round_trip(layers, format, first, 0, rest);
    assert(noteblocks_bytes(layers, format).unwrap() + rest =~= grid + (table + rest));
    assert(decoded_so_far(layers, format, 0, 0) =~~= blank_layers(header.layer_count, format)) by {
        assert forall|l: int, t: i16| 0 <= l < layers.len() && layers[l].notes.contains_key(
            t,
        ) implies t >= 0 by {
            assert(has_note(layers, l, t));
        }
    }
    assert(decoded_so_far(layers, format, i16::MAX + 1, 0) =~~= table_so_far(layers, format, 0));
}

/// A row that is read into layers whose notes follow the header leaves
/// layers whose notes follow the header, and does not touch the settings
/// of a layer.
proof fn lemma_row_follows(
    s: Seq<u8>,
    layers: Seq<LayerView>,
    tick: i16,
    cursor: int,
    vanilla: Option<i8>,
    version: i8,
)
    requires
        notes_follow(layers, vanilla, version),
    ensures
        parse_row(s, layers, tick, cursor, vanilla, version) matches Ok((got, rest)) ==> {
            &&& notes_follow(got, vanilla, version)
            &&& got.len() == layers.len()
            &&& forall|l: int|
                0 <= l < layers.len() ==> (#[trigger] got[l]).locked == layers[l].locked && got[l].stereo
                    == layers[l].stereo
        },
    decreases s.len(),
{
    if let Ok((jump, s1)) = take_i16(s) {
        if jump != 0 && 0 <= cursor + jump < layers.len() {
            lemma_take_note(s1, vanilla, version);
            if let Ok((note, s2)) = take_note(s1, vanilla, version) {
                let next = put_note(layers, cursor + jump, tick, note);
                assert forall|l: int, t: i16| #[trigger] has_note(next, l, t) implies {
                    let n = next[l].notes[t];
                    &&& n.follows(version)
                    &&& vanilla matches Some(first) && n.instrument == Instrument::classify(
                        n.instrument.id(),
                        first,
                    )
                } by {
                    if !(l == cursor + jump && t == tick) {
                        assert(has_note(layers, l, t));
                    }
                }
                lemma_row_follows(s2, next, tick, cursor + jump, vanilla, version);
            }
        }
    }
}

/// The rows that are read into layers whose notes follow the header leave
/// layers whose notes follow the header, and do not touch the settings of
/// a layer.
proof fn lemma_rows_follow(
    s: Seq<u8>,
    layers: Seq<LayerView>,
    tick: i16,
    vanilla: Option<i8>,
    version: i8,
)
    requires
        notes_follow(layers, vanilla, version),
    ensures
        parse_rows(s, layers, tick, vanilla, version) matches Ok((got, rest)) ==> {
            &&& notes_follow(got, vanilla, version)
            &&& got.len() == layers.len()
            &&& forall|l: int|
                0 <= l < layers.len() ==> (#[trigger] got[l]).locked == layers[l].locked && got[l].stereo
                    == layers[l].stereo
        },
    decreases s.len(),
{
    if let Ok((jump, s1)) = take_i16(s) {
        if jump != 0 && i16::MIN <= tick + jump <= i16::MAX {
            let next = (tick + jump) as i16;
            lemma_parse_row(s1, layers, next, -1, vanilla, version);
            lemma_row_follows(s1, layers, next, -1, vanilla, version);
            if let Ok((filled, s2)) = parse_row(s1, layers, next, -1, vanilla, version) {
                lemma_rows_follow(s2, filled, next, vanilla, version);
            }
        }
    }
}

/// The layer table that is read gives each layer from `from` on its
/// settings exactly where the version has them, and keeps every note and
/// the number of layers.
proof fn lemma_table_follows(
    s: Seq<u8>,
    layers: Seq<LayerView>,
    from: int,
    vanilla: Option<i8>,
    version: i8,
)
    requires
        0 <= from,
        notes_follow(layers, vanilla, version),
        forall|l: int|
            0 <= l < layers.len() ==> ((#[trigger] layers[l]).locked is Some <==> version >= 4) && (
            layers[l].stereo is Some <==> version >= 2),
        forall|l: int| 0 <= l < from && l < layers.len() ==> (#[trigger] layers[l]).follows(version),
    ensures
        parse_table(s, layers, from, version) matches Ok((got, rest)) ==> {
            &&& follows_header(got, vanilla, version)
            &&& got.len() == layers.len()
            &&& forall|l: int, t: i16| has_note(got, l, t) <==> has_note(layers, l, t)
        },
    decreases layers.len() - from,
{
    if from < layers.len() {
        lemma_take_layer(s, layers[from], version);
        if let Ok((l, s1)) = take_layer(s, layers[from], version) {
            let next = layers.update(from, l);
            assert forall|i: int, t: i16| #[trigger] has_note(next, i, t) implies {
                let n = next[i].notes[t];
                &&& n.follows(version)
                &&& vanilla matches Some(first) && n.instrument == Instrument::classify(
                    n.instrument.id(),
                    first,
                )
            } by {
                assert(has_note(layers, i, t));
            }
            assert forall|i: int, t: i16| has_note(next, i, t) <==> has_note(layers, i, t) by {}
            lemma_table_follows(s1, next, from + 1, vanilla, version);
        }
    }
}

/// Whatever bytes note blocks are decoded from, they follow the header
/// that they are decoded under. There are as many layers as the header
/// announces, none for a count below zero. Velocity, panning and pitch of
/// every note and the lock of every layer are present from version 4 on
/// and absent below, the stereo position of every layer is present from
/// version 2 on and absent below, and the volume of every layer is
/// present. The instrument of every note is a custom one from the count of
/// built-in instruments on, and a built-in one below.
pub proof fn lemma_decoded_follows_header(s: Seq<u8>, header: HeaderView)
    ensures
        parse_noteblocks(s, header) matches Ok((layers, rest)) ==> {
            &&& follows_header(layers, header.vanilla_count(), header.format.version())
            &&& layers.len() == if header.layer_count > 0 {
                header.layer_count as int
            } else {
                0
            }
        },
{
    let version = header.format.version();
    let vanilla = header.vanilla_count();
    let blank = blank_layers(header.layer_count, header.format);
    lemma_rows_follow(s, blank, -1i16, vanilla, version);
    if let Ok((filled, s1)) = parse_rows(s, blank, -1i16, vanilla, version) {
        lemma_table_follows(s1, filled, 0, vanilla, version);
    }
}

} // verus!
