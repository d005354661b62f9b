//! The note blocks of a song: its layers and the notes in them, and the
//! jump encoding of the sparse grid of ticks and layers.
//!
//! On the wire the grid is a run of rows, one for each tick that has a note.
//! A row starts with a tick jump, the distance from the row before it (the
//! first one from tick -1), and holds one record for each note of the tick: a
//! layer jump, the distance from the note before it in the row (the first
//! one from layer -1), and the fields of the note. A layer jump of zero ends
//! a row, a tick jump of zero ends the grid. The layer table follows.

use crate::error::NbsError;
use crate::error::NbsErrorKind;
use crate::header::Header;
use crate::header::HeaderView;
use crate::io::i16_le;
use crate::io::join;
use crate::io::take_i16;
use crate::io::write_i16;
use crate::io::ByteReader;
use crate::io::Parsed;
use crate::NbsFormat;
use layer::take_layer;
use layer::Layer;
use layer::LayerView;
use note::lemma_take_note;
use note::note_bytes;
use note::take_note;
use note::Note;
use vstd::prelude::*;

pub mod instrument;
pub mod laws;
pub mod layer;
pub mod note;

verus! {

/// The layers of a song, in the order of the file.
#[derive(Debug)]
pub struct NoteBlocks {
    /// The layers; the index of a layer is its place on the wire.
    pub layers: Vec<Layer>,
}

/// Layers as mathematical values.
pub open spec fn views(layers: Seq<Layer>) -> Seq<LayerView> {
    layers.map_values(|l: Layer| l@)
}

impl View for NoteBlocks {
    type V = Seq<LayerView>;

    open spec fn view(&self) -> Seq<LayerView> {
        views(self.layers@)
    }
}

/// Whether the layer with index `layer` has a note at `tick`.
pub open spec fn has_note(layers: Seq<LayerView>, layer: int, tick: i16) -> bool {
    0 <= layer < layers.len() && layers[layer].notes.contains_key(tick)
}

/// Whether any layer has a note at `tick`.
pub open spec fn row_has_notes(layers: Seq<LayerView>, tick: i16) -> bool {
    exists|layer: int| has_note(layers, layer, tick)
}

/// Whether `ticks` is the length of the grid: the greatest tick of any
/// note, and 0 where no note lies beyond tick 0.
pub open spec fn is_length(layers: Seq<LayerView>, ticks: int) -> bool {
    &&& 0 <= ticks <= i16::MAX
    &&& forall|layer: int, tick: i16| has_note(layers, layer, tick) ==> tick <= ticks
    &&& ticks > 0 ==> row_has_notes(layers, ticks as i16)
}

/// The length of the grid in ticks.
pub open spec fn length(layers: Seq<LayerView>) -> int {
    choose|ticks: int| is_length(layers, ticks)
}

/// The layers with `note` put at `tick` of the layer with index `layer`,
/// in place of a note that was there.
pub open spec fn put_note(layers: Seq<LayerView>, layer: int, tick: i16, note: Note) -> Seq<
    LayerView,
> {
    layers.update(
        layer,
        LayerView { notes: layers[layer].notes.insert(tick, note), ..layers[layer] },
    )
}

/// Reads the records of one row, the row of `tick`, with the layer cursor
/// at `cursor`, and puts their notes into `layers`. A record whose jump
/// leads outside the layers is malformed.
pub open spec fn parse_row(
    s: Seq<u8>,
    layers: Seq<LayerView>,
    tick: i16,
    cursor: int,
    vanilla: Option<i8>,
    version: i8,
) -> Parsed<Seq<LayerView>>
    decreases s.len(),
{
    match take_i16(s) {
        Err(k) => Err(k),
        Ok((jump, s)) => if jump == 0 {
            Ok((layers, s))
        } else if !(0 <= cursor + jump < layers.len()) {
            Err(NbsErrorKind::InvalidFormat)
        } else {
            match take_note(s, vanilla, version) {
                Err(k) => Err(k),
                Ok((note, s)) => parse_row(
                    s,
                    put_note(layers, cursor + jump, tick, note),
                    tick,
                    cursor + jump,
                    vanilla,
                    version,
                ),
            }
        },
    }
}

/// Reads the rows of the grid, with the tick cursor at `tick`, and puts
/// their notes into `layers`. A tick jump that leads outside the 16-bit
/// numbers is malformed.
pub open spec fn parse_rows(
    s: Seq<u8>,
    layers: Seq<LayerView>,
    tick: i16,
    vanilla: Option<i8>,
    version: i8,
) -> Parsed<Seq<LayerView>>
    decreases s.len(),
{
    match take_i16(s) {
        Err(k) => Err(k),
        Ok((jump, s)) => if jump == 0 {
            Ok((layers, s))
        } else if !(i16::MIN <= tick + jump <= i16::MAX) {
            Err(NbsErrorKind::InvalidFormat)
        } else {
            match parse_row(s, layers, (tick + jump) as i16, -1, vanilla, version) {
                Err(k) => Err(k),
                Ok((filled, rest)) => {
                    proof {
                        lemma_parse_row(s, layers, (tick + jump) as i16, -1, vanilla, version);
                    }
                    parse_rows(rest, filled, (tick + jump) as i16, vanilla, version)
                },
            }
        },
    }
}

/// Reads the layer table from index `from` on into `layers`.
pub open spec fn parse_table(s: Seq<u8>, layers: Seq<LayerView>, from: int, version: i8) -> Parsed<
    Seq<LayerView>,
>
    decreases layers.len() - from,
{
    if from < 0 || from >= layers.len() {
        Ok((layers, s))
    } else {
        match take_layer(s, layers[from], version) {
            Err(k) => Err(k),
            Ok((l, s)) => parse_table(s, layers.update(from, l), from + 1, version),
        }
    }
}

/// As many layers as the header announces, each as
/// [`Layer::from_format`] makes it; none for a count below zero.
pub open spec fn blank_layers(count: i16, format: NbsFormat) -> Seq<LayerView> {
    Seq::new(
        if count > 0 {
            count as nat
        } else {
            0
        },
        |i: int| LayerView::blank(format),
    )
}

/// Reads the note blocks of a song whose header is `header`: the grid,
/// into as many layers as the header announces, then the layer table.
pub open spec fn parse_noteblocks(s: Seq<u8>, header: HeaderView) -> Parsed<Seq<LayerView>> {
    match parse_rows(
        s,
        blank_layers(header.layer_count, header.format),
        -1i16,
        header.vanilla_count(),
        header.format.version(),
    ) {
        Err(k) => Err(k),
        Ok((layers, s)) => parse_table(s, layers, 0, header.format.version()),
    }
}

/// The records of the row of `tick` from the layer with index `from` on,
/// with the layer cursor at `cursor`. A jump beyond `i16::MAX` cannot be
/// written, nor a note that lacks a field that the version has.
pub open spec fn row_bytes(
    layers: Seq<LayerView>,
    tick: i16,
    from: int,
    cursor: int,
    version: i8,
) -> Option<Seq<u8>>
    decreases layers.len() - from,
{
    if from < 0 || from >= layers.len() {
        Some(Seq::empty())
    } else if !layers[from].notes.contains_key(tick) {
        row_bytes(layers, tick, from + 1, cursor, version)
    } else if from - cursor > i16::MAX {
        None
    } else {
        join(
            Some(i16_le((from - cursor) as i16)),
            join(
                note_bytes(layers[from].notes[tick], version),
                row_bytes(layers, tick, from + 1, from, version),
            ),
        )
    }
}

/// What the row of `tick` adds to the grid, with the tick cursor at
/// `cursor`: nothing where no layer has a note at `tick`; else the tick
/// jump, the records of the row, and the zero that ends it.
pub open spec fn row_record(layers: Seq<LayerView>, tick: i16, cursor: int, version: i8) -> Option<
    Seq<u8>,
> {
    if !row_has_notes(layers, tick) {
        Some(Seq::empty())
    } else if tick - cursor > i16::MAX {
        None
    } else {
        join(
            Some(i16_le((tick - cursor) as i16)),
            join(row_bytes(layers, tick, 0, -1, version), Some(i16_le(0))),
        )
    }
}

/// The rows from `tick` on, with the tick cursor at `cursor`, and the zero
/// that ends the grid.
pub open spec fn rows_bytes(layers: Seq<LayerView>, tick: int, cursor: int, version: i8) -> Option<
    Seq<u8>,
>
    decreases i16::MAX + 1 - tick,
{
    if tick < 0 || tick > i16::MAX {
        Some(i16_le(0))
    } else {
        join(
            row_record(layers, tick as i16, cursor, version),
            rows_bytes(
                layers,
                tick + 1,
                if row_has_notes(layers, tick as i16) {
                    tick
                } else {
                    cursor
                },
                version,
            ),
        )
    }
}

/// The grid on the wire: the rows of the ticks from 0 on that have a note,
/// and the zero that ends the grid. Notes at ticks below zero are not
/// written.
pub open spec fn grid_bytes(layers: Seq<LayerView>, version: i8) -> Option<Seq<u8>> {
    rows_bytes(layers, 0, -1, version)
}

/// The layer table from index `from` on.
pub open spec fn table_bytes(layers: Seq<LayerView>, from: int, version: i8) -> Option<Seq<u8>>
    decreases layers.len() - from,
{
    if from < 0 || from >= layers.len() {
        Some(Seq::empty())
    } else {
        join(layer::layer_bytes(layers[from], version), table_bytes(layers, from + 1, version))
    }
}

/// The note blocks on the wire in `format`: the grid, then the layer
/// table.
pub open spec fn noteblocks_bytes(layers: Seq<LayerView>, format: NbsFormat) -> Option<Seq<u8>> {
    join(grid_bytes(layers, format.version()), table_bytes(layers, 0, format.version()))
}

impl NoteBlocks {
    /// Note blocks without layers.
    pub fn new() -> (r: Self)
        ensures
            r@ == Seq::<LayerView>::empty(),
    {
        NoteBlocks { layers: Vec::new() }
    }

    /// The length of the grid in ticks: the greatest tick at which any
    /// layer has a note, and 0 where no note lies beyond tick 0.
    pub fn calculate_length(&self) -> (r: i16)
        ensures
            is_length(self@, r as int),
            r == length(self@),
    {
        let mut last: i16 = 0;
        let mut index: usize = 0;
        while index < self.layers.len()
            invariant
                index <= self.layers@.len(),
                last >= 0,
                forall|layer: int, tick: i16|
                    layer < index && #[trigger] has_note(self@, layer, tick) ==> tick <= last,
                last > 0 ==> row_has_notes(self@, last),
            decreases self.layers@.len() - index,
        {
            let here = self.layers[index].last_tick();
            if here > last {
                assert(has_note(self@, index as int, here));
                last = here;
            }
            index = index + 1;
        }
        proof {
            lemma_length_unique(self@, last as int, length(self@));
        }
        last
    }

    /// Reads the records of the row of `tick` and puts their notes into
    /// `layers`.
    fn read_row(
        layers: &mut Vec<Layer>,
        reader: &mut ByteReader,
        tick: i16,
        vanilla: Option<i8>,
        version: i8,
    ) -> (r: Result<(), NbsError>)
        requires
            old(layers)@.len() <= i16::MAX,
        ensures
            final(layers)@.len() == old(layers)@.len(),
            match parse_row(old(reader).remaining(), views(old(layers)@), tick, -1, vanilla, version) {
                Ok((v, rest)) => r is Ok && views(final(layers)@) == v && final(reader).remaining()
                    == rest,
                Err(k) => r matches Err(e) && e.kind() == k,
            },
    {
        broadcast use vstd::std_specs::hash::group_hash_axioms;

        let ghost whole = parse_row(
            reader.remaining(),
            views(layers@),
            tick,
            -1,
            vanilla,
            version,
        );
        let mut cursor: i32 = -1;
        loop
            invariant
                -1 <= cursor < layers@.len(),
                layers@.len() == old(layers)@.len(),
                layers@.len() <= i16::MAX,
                whole == parse_row(
                    old(reader).remaining(),
                    views(old(layers)@),
                    tick,
                    -1,
                    vanilla,
                    version,
                ),
                parse_row(reader.remaining(), views(layers@), tick, cursor as int, vanilla, version)
                    == whole,
            decreases reader.remaining().len(),
        {
            let ghost before = views(layers@);
            let jump = reader.read_i16()?;
            if jump == 0 {
                return Ok(());
            }
            let layer = cursor + jump as i32;
            if layer < 0 || layer as usize >= layers.len() {
                return Err(NbsError::InvalidFormat);
            }
            proof {
                lemma_take_note(reader.remaining(), vanilla, version);
            }
            let note = Note::read(reader, vanilla, version)?;
            let slot = &mut layers[layer as usize];
            slot.notes.insert(tick, note);
            assert(views(layers@) =~= put_note(before, layer as int, tick, note));
            cursor = layer;
        }
    }

    /// Reads the rows of the grid and puts their notes into `layers`.
    fn read_rows(
        layers: &mut Vec<Layer>,
        reader: &mut ByteReader,
        vanilla: Option<i8>,
        version: i8,
    ) -> (r: Result<(), NbsError>)
        requires
            old(layers)@.len() <= i16::MAX,
        ensures
            final(layers)@.len() == old(layers)@.len(),
            match parse_rows(old(reader).remaining(), views(old(layers)@), -1i16, vanilla, version) {
                Ok((v, rest)) => r is Ok && views(final(layers)@) == v && final(reader).remaining()
                    == rest,
                Err(k) => r matches Err(e) && e.kind() == k,
            },
    {
        let ghost whole = parse_rows(reader.remaining(), views(layers@), -1i16, vanilla, version);
        let mut tick: i16 = -1;
        loop
            invariant
                layers@.len() == old(layers)@.len(),
                layers@.len() <= i16::MAX,
                whole == parse_rows(
                    old(reader).remaining(),
                    views(old(layers)@),
                    -1i16,
                    vanilla,
                    version,
                ),
                parse_rows(reader.remaining(), views(layers@), tick, vanilla, version) == whole,
            decreases reader.remaining().len(),
        {
            let jump = reader.read_i16()?;
            if jump == 0 {
                return Ok(());
            }
            let next = tick as i32 + jump as i32;
            if next < -32768 || next > 32767 {
                return Err(NbsError::InvalidFormat);
            }
            tick = next as i16;
            proof {
                lemma_parse_row(reader.remaining(), views(layers@), tick, -1, vanilla, version);
            }
            Self::read_row(layers, reader, tick, vanilla, version)?;
        }
    }

    /// Reads the layer table into `layers`.
    fn read_table(layers: &mut Vec<Layer>, reader: &mut ByteReader, version: i8) -> (r: Result<
        (),
        NbsError,
    >)
        ensures
            final(layers)@.len() == old(layers)@.len(),
            match parse_table(old(reader).remaining(), views(old(layers)@), 0, version) {
                Ok((v, rest)) => r is Ok && views(final(layers)@) == v && final(reader).remaining()
                    == rest,
                Err(k) => r matches Err(e) && e.kind() == k,
            },
    {
        let ghost whole = parse_table(reader.remaining(), views(layers@), 0, version);
        let mut index: usize = 0;
        while index < layers.len()
            invariant
                index <= layers@.len(),
                layers@.len() == old(layers)@.len(),
                whole == parse_table(old(reader).remaining(), views(old(layers)@), 0, version),
                parse_table(reader.remaining(), views(layers@), index as int, version) == whole,
            decreases layers@.len() - index,
        {
            let ghost before = views(layers@);
            let slot = &mut layers[index];
            slot.read_entry(reader, version)?;
            assert(views(layers@) =~= before.update(index as int, layers@[index as int]@));
            index = index + 1;
        }
        Ok(())
    }

    /// Reads the note blocks. On failure the reader is left at the field
    /// that failed.
    fn read(reader: &mut ByteReader, header: &Header) -> (r: Result<Self, NbsError>)
        ensures
            match parse_noteblocks(old(reader).remaining(), header@) {
                Ok((v, rest)) => r matches Ok(x) && x@ == v && final(reader).remaining() == rest,
                Err(k) => r matches Err(e) && e.kind() == k,
            },
    {
        let vanilla = match header.vannila_instrument_count() {
            Ok(count) => Some(count),
            Err(_) => None,
        };
        let version = header.format.version();
        let mut layers: Vec<Layer> = Vec::new();
        let mut made: i16 = 0;
        assert(views(layers@) =~= blank_layers(made, header.format));
        while made < header.layer_count
            invariant
                0 <= made,
                made <= header.layer_count || made == 0,
                layers@.len() == made,
                views(layers@) == blank_layers(made, header.format),
            decreases header.layer_count - made,
        {
            let ghost before = layers@;
            layers.push(Layer::from_format(header.format));
            assert forall|i: int| 0 <= i < layers@.len() implies #[trigger] views(layers@)[i]
                == LayerView::blank(header.format) by {
                if i < made {
                    assert(views(before)[i] == blank_layers(made, header.format)[i]);
                }
            }
            made = made + 1;
        }
        assert(blank_layers(made, header.format) =~= blank_layers(
            header.layer_count,
            header.format,
        ));
        Self::read_rows(&mut layers, reader, vanilla, version)?;
        Self::read_table(&mut layers, reader, version)?;
        Ok(NoteBlocks { layers })
    }

    /// Decodes the note blocks of a song from the bytes at the reader,
    /// which moves behind them: the grid, then the layer table. As many
    /// layers are made as `header` announces, and a note whose layer is not
    /// among them is malformed; so is a tick beyond the 16-bit numbers. On
    /// failure the reader stays where it was.
    pub fn decode(reader: &mut ByteReader, header: &Header) -> (r: Result<Self, NbsError>)
        ensures
            match parse_noteblocks(old(reader).remaining(), header@) {
                Ok((v, rest)) => r matches Ok(x) && x@ == v && final(reader).remaining() == rest,
                Err(k) => r matches Err(e) && e.kind() == k && *final(reader) == *old(reader),
            },
    {
        let mut cursor = *reader;
        match Self::read(&mut cursor, header) {
            Ok(blocks) => {
                *reader = cursor;
                Ok(blocks)
            },
            Err(e) => Err(e),
        }
    }
}

impl NoteBlocks {
    /// Appends what the row of `tick` adds to the grid, with the tick
    /// cursor at `cursor`, and tells whether the row has a note.
    fn write_row(&self, tick: i16, cursor: i32, version: i8, out: &mut Vec<u8>) -> (r: Result<
        bool,
        NbsError,
    >)
        requires
            -1 <= cursor < tick,
        ensures
            match row_record(self@, tick, cursor as int, version) {
                Some(b) => r matches Ok(had) && had == row_has_notes(self@, tick) && final(out)@
                    == old(out)@ + b,
                None => r matches Err(e) && e is InvalidFormat,
            },
    {
        broadcast use vstd::std_specs::hash::group_hash_axioms;

        let ghost layers = self@;
        let ghost whole = row_bytes(layers, tick, 0, -1, version);
        let ghost mut done: Seq<u8> = Seq::empty();
        let mut last: Option<usize> = None;
        let mut index: usize = 0;
        while index < self.layers.len()
            invariant
                index <= self.layers@.len(),
                layers == self@,
                -1 <= cursor < tick,
                whole == row_bytes(layers, tick, 0, -1, version),
                last matches Some(p) ==> p < index && has_note(layers, p as int, tick) && tick
                    - cursor <= i16::MAX,
                last is None ==> done == Seq::<u8>::empty(),
                last is None ==> forall|l: int| l < index ==> !has_note(layers, l, tick),
                join(
                    Some(done),
                    row_bytes(
                        layers,
                        tick,
                        index as int,
                        match last {
                            Some(p) => p as int,
                            None => -1,
                        },
                        version,
                    ),
                ) == whole,
                out@ == old(out)@ + (if last is Some {
                    i16_le((tick - cursor) as i16) + done
                } else {
                    Seq::<u8>::empty()
                }),
            decreases self.layers@.len() - index,
        {
            let ghost from = match last {
                Some(p) => p as int,
                None => -1,
            };
            match self.layers[index].notes.get(&tick) {
                None => {},
                Some(note) => {
                    assert(has_note(layers, index as int, tick));
                    let ghost tail = row_bytes(layers, tick, index + 1, index as int, version);
                    if last.is_none() {
                        let tick_jump = tick as i32 - cursor;
                        if tick_jump > 32767 {
                            return Err(NbsError::InvalidFormat);
                        }
                        write_i16(out, tick_jump as i16);
                    }
                    let layer_jump = match last {
                        Some(p) => index - p,
                        None => index + 1,
                    };
                    if layer_jump > 32767 {
                        return Err(NbsError::InvalidFormat);
                    }
                    write_i16(out, layer_jump as i16);
                    note.write(version, out)?;
                    proof {
                        let record = i16_le((index - from) as i16) + note_bytes(
                            *note,
                            version,
                        ).unwrap();
                        assert(out@ =~= old(out)@ + (i16_le((tick - cursor) as i16) + (done
                            + record)));
                        if tail is Some {
                            assert(done + (i16_le((index - from) as i16) + (note_bytes(
                                *note,
                                version,
                            ).unwrap() + tail.unwrap())) =~= (done + record) + tail.unwrap());
                        }
                        done = done + record;
                    }
                    last = Some(index);
                },
            }
            index = index + 1;
        }
        if last.is_some() {
            write_i16(out, 0);
            Ok(true)
        } else {
            Ok(false)
        }
    }

    /// Appends the grid: the rows of the ticks that have a note, up to the
    /// length of the grid, and the zero that ends the grid.
    fn write_rows(&self, version: i8, out: &mut Vec<u8>) -> (r: Result<(), NbsError>)
        ensures
            match grid_bytes(self@, version) {
                Some(b) => r is Ok && final(out)@ == old(out)@ + b,
                None => r matches Err(e) && e is InvalidFormat,
            },
    {
        let ghost layers = self@;
        let ghost whole = grid_bytes(layers, version);
        let ghost mut done: Seq<u8> = Seq::empty();
        let end = self.calculate_length();
        let mut cursor: i32 = -1;
        let mut tick: i32 = 0;
        while tick <= end as i32
            invariant
                0 <= tick <= end + 1,
                -1 <= cursor < tick,
                layers == self@,
                is_length(layers, end as int),
                whole == grid_bytes(layers, version),
                join(Some(done), rows_bytes(layers, tick as int, cursor as int, version)) == whole,
                out@ == old(out)@ + done,
            decreases end + 1 - tick,
        {
            let ghost tail = rows_bytes(
                layers,
                tick + 1,
                if row_has_notes(layers, tick as i16) {
                    tick as int
                } else {
                    cursor as int
                },
                version,
            );
            let ghost row = row_record(layers, tick as i16, cursor as int, version);
            let had = self.write_row(tick as i16, cursor, version, out)?;
            proof {
                if tail is Some {
                    assert(done + (row.unwrap() + tail.unwrap()) =~= (done + row.unwrap())
                        + tail.unwrap());
                }
                done = done + row.unwrap();
            }
            if had {
                cursor = tick;
            }
            tick = tick + 1;
        }
        proof {
            lemma_rows_behind_the_last(layers, tick as int, cursor as int, version);
        }
        write_i16(out, 0);
        Ok(())
    }

    /// Appends the layer table.
    fn write_table(&self, version: i8, out: &mut Vec<u8>) -> (r: Result<(), NbsError>)
        ensures
            match table_bytes(self@, 0, version) {
                Some(b) => r is Ok && final(out)@ == old(out)@ + b,
                None => r matches Err(e) && e is InvalidFormat,
            },
    {
        let ghost layers = self@;
        let ghost whole = table_bytes(layers, 0, version);
        let ghost mut done: Seq<u8> = Seq::empty();
        let mut index: usize = 0;
        while index < self.layers.len()
            invariant
                index <= self.layers@.len(),
                layers == self@,
                whole == table_bytes(layers, 0, version),
                join(Some(done), table_bytes(layers, index as int, version)) == whole,
                out@ == old(out)@ + done,
            decreases self.layers@.len() - index,
        {
            let ghost tail = table_bytes(layers, index + 1, version);
            let ghost entry = layer::layer_bytes(layers[index as int], version);
            self.layers[index].write_entry(version, out)?;
            proof {
                if tail is Some {
                    assert(done + (entry.unwrap() + tail.unwrap()) =~= (done + entry.unwrap())
                        + tail.unwrap());
                }
                done = done + entry.unwrap();
            }
            index = index + 1;
        }
        Ok(())
    }

    /// The bytes of the note blocks in `format`, or the failure where they
    /// cannot be written.
    pub(crate) fn to_bytes(&self, format: NbsFormat) -> (r: Result<Vec<u8>, NbsError>)
        ensures
            match noteblocks_bytes(self@, format) {
                Some(b) => r matches Ok(v) && v@ == b,
                None => r matches Err(e) && e is InvalidFormat,
            },
    {
        let version = format.version();
        let mut out: Vec<u8> = Vec::new();
        self.write_rows(version, &mut out)?;
        self.write_table(version, &mut out)?;
        Ok(out)
    }

    /// Encodes the note blocks in `format` and appends them to `writer`:
    /// for each tick from 0 to the length of the grid that has a note, a
    /// row of the notes in the order of the layers, then the zero that ends
    /// the grid, then the layer table. Notes at ticks below zero are left
    /// out. Where a jump is beyond `i16::MAX`, a note or a layer lacks a
    /// field that the version of `format` has, or a layer name is longer
    /// than a 32-bit length can say, the note blocks cannot be written:
    /// `writer` is then left as it was.
    pub fn encode(&self, format: NbsFormat, writer: &mut Vec<u8>) -> (r: Result<(), NbsError>)
        ensures
            match noteblocks_bytes(self@, format) {
                Some(b) => r is Ok && final(writer)@ == old(writer)@ + b,
                None => r matches Err(e) && e is InvalidFormat && final(writer)@ == old(writer)@,
            },
    {
        let mut bytes = self.to_bytes(format)?;
        writer.append(&mut bytes);
        Ok(())
    }
}

/// Where no note lies at `tick` or beyond, the rows from `tick` on are
/// only the zero that ends the grid.
pub proof fn lemma_rows_behind_the_last(
    layers: Seq<LayerView>,
    tick: int,
    cursor: int,
    version: i8,
)
    requires
        forall|layer: int, t: i16| has_note(layers, layer, t) ==> t < tick,
    ensures
        rows_bytes(layers, tick, cursor, version) == Some(i16_le(0)),
    decreases i16::MAX + 1 - tick,
{
    if 0 <= tick <= i16::MAX {
        lemma_rows_behind_the_last(layers, tick + 1, cursor, version);
    }
}

/// A grid without notes is, on the wire, the zero that ends the grid and
/// nothing else: the layer table follows it at once.
pub proof fn lemma_empty_grid(layers: Seq<LayerView>, format: NbsFormat)
    requires
        forall|layer: int, tick: i16| !has_note(layers, layer, tick),
    ensures
        grid_bytes(layers, format.version()) == Some(seq![0u8, 0u8]),
        noteblocks_bytes(layers, format) == join(
            Some(seq![0u8, 0u8]),
            table_bytes(layers, 0, format.version()),
        ),
{
    lemma_rows_behind_the_last(layers, 0, -1, format.version());
}

/// A grid has one length: where `a` is a length of the grid, it is the
/// length, and what is also a length equals it.
pub proof fn lemma_length_unique(layers: Seq<LayerView>, a: int, b: int)
    requires
        is_length(layers, a),
    ensures
        is_length(layers, length(layers)),
        length(layers) == a,
        is_length(layers, b) ==> a == b,
{
    let c = length(layers);
    lemma_not_beyond(layers, a, c);
    lemma_not_beyond(layers, c, a);
    if is_length(layers, b) {
        lemma_not_beyond(layers, a, b);
        lemma_not_beyond(layers, b, a);
    }
}

/// A length of a grid is not beyond another length of it.
proof fn lemma_not_beyond(layers: Seq<LayerView>, a: int, b: int)
    requires
        is_length(layers, a),
        is_length(layers, b),
    ensures
        a <= b,
{
    if a > b {
        let tick = a as i16;
        let layer = choose|layer: int| has_note(layers, layer, tick);
        assert(has_note(layers, layer, tick));
    }
}

/// A row that is read leaves fewer bytes than it was given, and as many
/// layers.
pub proof fn lemma_parse_row(
    s: Seq<u8>,
    layers: Seq<LayerView>,
    tick: i16,
    cursor: int,
    vanilla: Option<i8>,
    version: i8,
)
    ensures
        parse_row(s, layers, tick, cursor, vanilla, version) matches Ok((got, rest)) ==> rest.len()
            < s.len() && got.len() == layers.len(),
    decreases s.len(),
{
    if let Ok((jump, s1)) = take_i16(s) {
        if jump != 0 && 0 <= cursor + jump < layers.len() {
            lemma_take_note(s1, vanilla, version);
            if let Ok((note, s2)) = take_note(s1, vanilla, version) {
                lemma_parse_row(
                    s2,
                    put_note(layers, cursor + jump, tick, note),
                    tick,
                    cursor + jump,
                    vanilla,
                    version,
                );
            }
        }
    }
}

} // verus!
