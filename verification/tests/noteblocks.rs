use nbs::error::NbsErrorKind;
use nbs::header::Header;
use nbs::io::ByteReader;
use nbs::noteblocks::instrument::Instrument;
use nbs::noteblocks::instrument::BELL;
use nbs::noteblocks::instrument::PIANO;
use nbs::noteblocks::layer::Layer;
use nbs::noteblocks::note::Note;
use nbs::noteblocks::NoteBlocks;
use nbs::NbsFormat;

fn plain_note(id: i8, key: i8) -> Note {
    Note::new(Instrument::Vanilla(id), key, None, None, None)
}

fn full_note(id: i8, key: i8) -> Note {
    Note::new(Instrument::Vanilla(id), key, Some(100), Some(100), Some(0))
}

fn blocks_of(format: NbsFormat, layers: usize) -> NoteBlocks {
    let mut blocks = NoteBlocks::new();
    for _ in 0..layers {
        blocks.layers.push(Layer::from_format(format));
    }
    blocks
}

fn header_for(format: NbsFormat, layers: i16) -> Header {
    let mut header = Header::new(format);
    header.layer_count = layers;
    header
}

#[test]
fn new_note_blocks_have_no_layers() {
    let blocks = NoteBlocks::new();
    assert!(blocks.layers.is_empty());
    assert_eq!(blocks.calculate_length(), 0);
}

#[test]
fn a_new_layer_is_bare() {
    let layer = Layer::new();
    assert_eq!(layer.name, "");
    assert_eq!(layer.locked, None);
    assert_eq!(layer.volume, Some(100));
    assert_eq!(layer.stereo, None);
    assert!(layer.notes.is_empty());
}

#[test]
fn a_layer_has_the_fields_of_its_format() {
    let legacy = Layer::from_format(NbsFormat::NoteBlockStudio);
    assert_eq!((legacy.locked, legacy.volume, legacy.stereo), (None, Some(100), None));
    let one = Layer::from_format(NbsFormat::OpenNoteBlockStudio(1));
    assert_eq!((one.locked, one.volume, one.stereo), (None, Some(100), None));
    let two = Layer::from_format(NbsFormat::OpenNoteBlockStudio(2));
    assert_eq!((two.locked, two.volume, two.stereo), (None, Some(100), Some(100)));
    let three = Layer::from_format(NbsFormat::OpenNoteBlockStudio(3));
    assert_eq!((three.locked, three.volume, three.stereo), (None, Some(100), Some(100)));
    let four = Layer::from_format(NbsFormat::OpenNoteBlockStudio(4));
    assert_eq!((four.locked, four.volume, four.stereo), (Some(false), Some(100), Some(100)));
    assert_eq!(four.name, "");
    assert!(four.notes.is_empty());
}

#[test]
fn a_note_keeps_its_fields() {
    let note = Note::new(Instrument::Custom(20), 45, Some(80), Some(120), Some(-300));
    assert_eq!(note.instrument, Instrument::Custom(20));
    assert_eq!(note.key, 45);
    assert_eq!(note.velocity, Some(80));
    assert_eq!(note.panning, Some(120));
    assert_eq!(note.pitch, Some(-300));
}

#[test]
fn the_length_is_the_greatest_tick() {
    let mut blocks = blocks_of(NbsFormat::OpenNoteBlockStudio(4), 3);
    assert_eq!(blocks.calculate_length(), 0);
    blocks.layers[1].notes.insert(0, full_note(PIANO, 40));
    assert_eq!(blocks.calculate_length(), 0);
    blocks.layers[1].notes.insert(7, full_note(PIANO, 40));
    blocks.layers[2].notes.insert(200, full_note(PIANO, 40));
    blocks.layers[0].notes.insert(13, full_note(PIANO, 40));
    assert_eq!(blocks.calculate_length(), 200);
    blocks.layers[0].notes.insert(i16::MAX, full_note(PIANO, 40));
    assert_eq!(blocks.calculate_length(), i16::MAX);
}

#[test]
fn notes_below_tick_zero_do_not_count_for_the_length() {
    let mut blocks = blocks_of(NbsFormat::OpenNoteBlockStudio(4), 1);
    blocks.layers[0].notes.insert(-5, full_note(PIANO, 40));
    assert_eq!(blocks.calculate_length(), 0);
}

#[test]
fn a_grid_without_notes_is_a_single_zero_jump() {
    let format = NbsFormat::OpenNoteBlockStudio(4);
    let blocks = blocks_of(format, 0);
    let mut out = Vec::new();
    blocks.encode(format, &mut out).unwrap();
    assert_eq!(out, vec![0, 0]);
}

#[test]
fn the_layer_table_follows_an_empty_grid_at_once() {
    let format = NbsFormat::OpenNoteBlockStudio(4);
    let mut blocks = blocks_of(format, 2);
    blocks.layers[0].name = String::from("a");
    blocks.layers[1].locked = Some(true);
    blocks.layers[1].volume = Some(50);
    blocks.layers[1].stereo = Some(90);
    let mut out = Vec::new();
    blocks.encode(format, &mut out).unwrap();
    let expected: Vec<u8> = vec![
        0, 0, 1, 0, 0, 0, b'a', 0, 100, 100, 0, 0, 0, 0, 1, 50, 90,
    ];
    assert_eq!(out, expected);
}

#[test]
fn the_layer_table_has_the_fields_of_the_version() {
    for (version, expected) in [
        (0i8, vec![0u8, 0, 1, 0, 0, 0, b'x', 70]),
        (1, vec![0, 0, 1, 0, 0, 0, b'x', 70]),
        (2, vec![0, 0, 1, 0, 0, 0, b'x', 70, 30]),
        (3, vec![0, 0, 1, 0, 0, 0, b'x', 70, 30]),
        (4, vec![0, 0, 1, 0, 0, 0, b'x', 1, 70, 30]),
    ] {
        let format = if version == 0 {
            NbsFormat::NoteBlockStudio
        } else {
            NbsFormat::OpenNoteBlockStudio(version)
        };
        let mut blocks = NoteBlocks::new();
        let mut layer = Layer::new();
        layer.name = String::from("x");
        layer.locked = Some(true);
        layer.volume = Some(70);
        layer.stereo = Some(30);
        blocks.layers.push(layer);
        let mut out = Vec::new();
        blocks.encode(format, &mut out).unwrap();
        assert_eq!(out, expected);
    }
}

#[test]
fn jumps_lead_from_note_to_note() {
    let format = NbsFormat::OpenNoteBlockStudio(2);
    let mut blocks = blocks_of(format, 3);
    blocks.layers[0].notes.insert(0, plain_note(1, 10));
    blocks.layers[0].notes.insert(5, plain_note(2, 20));
    blocks.layers[2].notes.insert(5, plain_note(3, 30));
    let mut out = Vec::new();
    blocks.encode(format, &mut out).unwrap();
    let grid: Vec<u8> = vec![
        1, 0, 1, 0, 1, 10, 0, 0, 5, 0, 1, 0, 2, 20, 2, 0, 3, 30, 0, 0, 0, 0,
    ];
    assert_eq!(&out[..grid.len()], &grid[..]);
    assert_eq!(out.len(), grid.len() + 3 * 6);

    let mut tick: i16 = -1;
    let mut ticks = Vec::new();
    let mut rows = Vec::new();
    let mut reader = ByteReader::new(&out);
    loop {
        let jump = reader.read_i16().unwrap();
        if jump == 0 {
            break;
        }
        tick += jump;
        ticks.push(tick);
        let mut layer: i16 = -1;
        let mut row = Vec::new();
        loop {
            let jump = reader.read_i16().unwrap();
            if jump == 0 {
                break;
            }
            layer += jump;
            row.push(layer);
            reader.read_i16().unwrap();
        }
        rows.push(row);
    }
    assert_eq!(ticks, vec![0, 5]);
    assert_eq!(rows, vec![vec![0], vec![0, 2]]);
}

#[test]
fn a_note_of_version_four_has_six_bytes() {
    let format = NbsFormat::OpenNoteBlockStudio(4);
    let mut blocks = blocks_of(format, 1);
    blocks.layers[0].notes.insert(
        2,
        Note::new(Instrument::Custom(17), 33, Some(90), Some(-56), Some(-1200)),
    );
    let mut out = Vec::new();
    blocks.encode(format, &mut out).unwrap();
    let expected: Vec<u8> = vec![
        3, 0, 1, 0, 17, 33, 90, 200, 0x50, 0xfb, 0, 0, 0, 0, 0, 0, 0, 0, 0, 100, 100,
    ];
    assert_eq!(out, expected);
}

#[test]
fn a_tick_without_notes_leaves_no_trace() {
    let format = NbsFormat::NoteBlockStudio;
    let mut blocks = blocks_of(format, 2);
    blocks.layers[1].notes.insert(1000, plain_note(0, 0));
    let mut out = Vec::new();
    blocks.encode(format, &mut out).unwrap();
    let expected: Vec<u8> = vec![
        0xe9, 0x03, 2, 0, 0, 0, 0, 0, 0, 0, 0, 0, 0, 0, 100, 0, 0, 0, 0, 100,
    ];
    assert_eq!(out, expected);
}

#[test]
fn notes_below_tick_zero_are_not_written() {
    let format = NbsFormat::OpenNoteBlockStudio(1);
    let mut blocks = blocks_of(format, 1);
    blocks.layers[0].notes.insert(-1, plain_note(0, 0));
    let mut out = Vec::new();
    blocks.encode(format, &mut out).unwrap();
    assert_eq!(out, vec![0, 0, 0, 0, 0, 0, 100]);
}

#[test]
fn a_note_that_lacks_a_field_of_version_four_cannot_be_written() {
    let format = NbsFormat::OpenNoteBlockStudio(4);
    for note in [
        Note::new(Instrument::Vanilla(0), 1, None, Some(1), Some(1)),
        Note::new(Instrument::Vanilla(0), 1, Some(1), None, Some(1)),
        Note::new(Instrument::Vanilla(0), 1, Some(1), Some(1), None),
    ] {
        let mut blocks = blocks_of(format, 1);
        blocks.layers[0].notes.insert(3, note);
        let mut out = vec![7u8];
        let error = blocks.encode(format, &mut out).unwrap_err();
        assert_eq!(error.kind(), NbsErrorKind::InvalidFormat);
        assert_eq!(out, vec![7]);
        blocks.encode(NbsFormat::OpenNoteBlockStudio(3), &mut out).unwrap();
    }
}

#[test]
fn a_layer_that_lacks_a_field_of_the_version_cannot_be_written() {
    let mut blocks = NoteBlocks::new();
    blocks.layers.push(Layer::new());
    let mut out = Vec::new();
    blocks.encode(NbsFormat::NoteBlockStudio, &mut out).unwrap();
    blocks.encode(NbsFormat::OpenNoteBlockStudio(1), &mut out).unwrap();
    let before = out.clone();
    for version in [2i8, 3, 4] {
        let error = blocks.encode(NbsFormat::OpenNoteBlockStudio(version), &mut out).unwrap_err();
        assert_eq!(error.kind(), NbsErrorKind::InvalidFormat);
        assert_eq!(out, before);
    }
    blocks.layers[0].stereo = Some(100);
    blocks.encode(NbsFormat::OpenNoteBlockStudio(3), &mut out).unwrap();
    assert!(blocks.encode(NbsFormat::OpenNoteBlockStudio(4), &mut out).is_err());
    blocks.layers[0].locked = Some(false);
    blocks.encode(NbsFormat::OpenNoteBlockStudio(4), &mut out).unwrap();
}

#[test]
fn a_layer_without_volume_cannot_be_written() {
    for format in [NbsFormat::NoteBlockStudio, NbsFormat::OpenNoteBlockStudio(4)] {
        let mut blocks = blocks_of(format, 1);
        blocks.layers[0].volume = None;
        let mut out = Vec::new();
        let error = blocks.encode(format, &mut out).unwrap_err();
        assert_eq!(error.kind(), NbsErrorKind::InvalidFormat);
        assert!(out.is_empty());
    }
}

#[test]
fn a_first_note_at_the_last_tick_needs_a_jump_that_does_not_fit() {
    let format = NbsFormat::OpenNoteBlockStudio(1);
    let mut blocks = blocks_of(format, 1);
    blocks.layers[0].notes.insert(i16::MAX, plain_note(0, 0));
    let mut out = Vec::new();
    let error = blocks.encode(format, &mut out).unwrap_err();
    assert_eq!(error.kind(), NbsErrorKind::InvalidFormat);
    assert!(out.is_empty());
    blocks.layers[0].notes.insert(0, plain_note(0, 0));
    blocks.encode(format, &mut out).unwrap();
    assert_eq!(&out[..14], &[1, 0, 1, 0, 0, 0, 0, 0, 0xff, 0x7f, 1, 0, 0, 0]);
}

#[test]
fn the_grid_is_read_into_the_announced_layers() {
    let bytes: Vec<u8> = vec![
        1, 0, 1, 0, 1, 10, 0, 0, 5, 0, 1, 0, 2, 20, 2, 0, 3, 30, 0, 0, 0, 0, 1, 0, 0, 0, b'a',
        11, 12, 0, 0, 0, 0, 21, 22, 1, 0, 0, 0, b'c', 31, 32, 99,
    ];
    let header = header_for(NbsFormat::OpenNoteBlockStudio(2), 3);
    let mut reader = ByteReader::new(&bytes);
    let blocks = NoteBlocks::decode(&mut reader, &header).unwrap();
    assert_eq!(reader.read_i8().unwrap(), 99);
    assert_eq!(blocks.layers.len(), 3);
    assert_eq!(blocks.layers[0].notes.len(), 2);
    assert_eq!(blocks.layers[1].notes.len(), 0);
    assert_eq!(blocks.layers[2].notes.len(), 1);
    assert_eq!(blocks.layers[0].notes[&0], plain_note(1, 10));
    assert_eq!(blocks.layers[0].notes[&5], plain_note(2, 20));
    assert_eq!(blocks.layers[2].notes[&5], plain_note(3, 30));
    assert_eq!(blocks.layers[0].name, "a");
    assert_eq!(blocks.layers[0].volume, Some(11));
    assert_eq!(blocks.layers[0].stereo, Some(12));
    assert_eq!(blocks.layers[0].locked, None);
    assert_eq!(blocks.layers[1].name, "");
    assert_eq!(blocks.layers[1].volume, Some(21));
    assert_eq!(blocks.layers[1].stereo, Some(22));
    assert_eq!(blocks.layers[2].name, "c");
    assert_eq!(blocks.layers[2].volume, Some(31));
    assert_eq!(blocks.layers[2].stereo, Some(32));
    assert_eq!(blocks.calculate_length(), 5);
}

#[test]
fn a_later_note_at_the_same_place_takes_the_place() {
    let bytes: Vec<u8> = vec![
        1, 0, 1, 0, 1, 10, 0, 0, 0xff, 0xff, 1, 0, 2, 20, 0, 0, 1, 0, 1, 0, 3, 30, 0, 0, 0, 0,
        0, 0, 0, 0, 100,
    ];
    let header = header_for(NbsFormat::NoteBlockStudio, 1);
    let mut reader = ByteReader::new(&bytes);
    let blocks = NoteBlocks::decode(&mut reader, &header).unwrap();
    assert_eq!(blocks.layers[0].notes.len(), 2);
    assert_eq!(blocks.layers[0].notes[&-1], plain_note(2, 20));
    assert_eq!(blocks.layers[0].notes[&0], plain_note(3, 30));
}

#[test]
fn a_negative_layer_count_means_no_layers() {
    let bytes: Vec<u8> = vec![0, 0, 5];
    let header = header_for(NbsFormat::OpenNoteBlockStudio(4), -3);
    let mut reader = ByteReader::new(&bytes);
    let blocks = NoteBlocks::decode(&mut reader, &header).unwrap();
    assert!(blocks.layers.is_empty());
    assert_eq!(reader.read_i8().unwrap(), 5);
}

#[test]
fn a_note_outside_the_announced_layers_is_malformed() {
    let header = header_for(NbsFormat::OpenNoteBlockStudio(2), 2);
    let beyond: Vec<u8> = vec![1, 0, 3, 0, 1, 10, 0, 0, 0, 0];
    let mut reader = ByteReader::new(&beyond);
    let error = NoteBlocks::decode(&mut reader, &header).unwrap_err();
    assert_eq!(error.kind(), NbsErrorKind::InvalidFormat);
    assert_eq!(reader.read_i16().unwrap(), 1);
    let below: Vec<u8> = vec![1, 0, 0xff, 0xff, 1, 10, 0, 0, 0, 0];
    let mut reader = ByteReader::new(&below);
    let error = NoteBlocks::decode(&mut reader, &header).unwrap_err();
    assert_eq!(error.kind(), NbsErrorKind::InvalidFormat);
    let back: Vec<u8> = vec![1, 0, 2, 0, 1, 10, 0xfe, 0xff, 1, 10, 0, 0, 0, 0];
    let mut reader = ByteReader::new(&back);
    let error = NoteBlocks::decode(&mut reader, &header).unwrap_err();
    assert_eq!(error.kind(), NbsErrorKind::InvalidFormat);
}

#[test]
fn a_note_without_any_layer_is_malformed() {
    let header = header_for(NbsFormat::OpenNoteBlockStudio(2), 0);
    let bytes: Vec<u8> = vec![1, 0, 1, 0, 1, 10, 0, 0, 0, 0];
    let mut reader = ByteReader::new(&bytes);
    let error = NoteBlocks::decode(&mut reader, &header).unwrap_err();
    assert_eq!(error.kind(), NbsErrorKind::InvalidFormat);
}

#[test]
fn a_tick_beyond_sixteen_bits_is_malformed() {
    let header = header_for(NbsFormat::OpenNoteBlockStudio(2), 1);
    let bytes: Vec<u8> = vec![
        0xff, 0x7f, 1, 0, 1, 10, 0, 0, 2, 0, 1, 0, 1, 10, 0, 0, 0, 0, 0, 0, 0, 0, 100, 100,
    ];
    let mut reader = ByteReader::new(&bytes);
    let error = NoteBlocks::decode(&mut reader, &header).unwrap_err();
    assert_eq!(error.kind(), NbsErrorKind::InvalidFormat);
    let down: Vec<u8> = vec![0x00, 0x80, 1, 0, 1, 10, 0, 0, 0, 0];
    let mut reader = ByteReader::new(&down);
    let error = NoteBlocks::decode(&mut reader, &header).unwrap_err();
    assert_eq!(error.kind(), NbsErrorKind::InvalidFormat);
}

#[test]
fn a_grid_that_ends_too_early_is_an_io_error() {
    let bytes: Vec<u8> = vec![
        1, 0, 1, 0, 1, 10, 0, 0, 5, 0, 1, 0, 2, 20, 2, 0, 3, 30, 0, 0, 0, 0, 1, 0, 0, 0, b'a',
        11, 12, 0, 0, 0, 0, 21, 22, 1, 0, 0, 0, b'c', 31, 32,
    ];
    let header = header_for(NbsFormat::OpenNoteBlockStudio(2), 3);
    for cut in 0..bytes.len() {
        let mut reader = ByteReader::new(&bytes[..cut]);
        let error = NoteBlocks::decode(&mut reader, &header).unwrap_err();
        assert_eq!(error.kind(), NbsErrorKind::IoError);
    }
    let mut reader = ByteReader::new(&bytes);
    assert!(NoteBlocks::decode(&mut reader, &header).is_ok());
}

#[test]
fn a_note_under_a_header_without_instrument_count_is_malformed() {
    let mut header = header_for(NbsFormat::OpenNoteBlockStudio(2), 1);
    header.vannila_instrument_count = None;
    let bytes: Vec<u8> = vec![1, 0, 1, 0, 1, 10, 0, 0, 0, 0, 0, 0, 0, 0, 1, 1];
    let mut reader = ByteReader::new(&bytes);
    let error = NoteBlocks::decode(&mut reader, &header).unwrap_err();
    assert_eq!(error.kind(), NbsErrorKind::InvalidFormat);
    let empty: Vec<u8> = vec![0, 0, 0, 0, 0, 0, 1, 1];
    let mut reader = ByteReader::new(&empty);
    assert!(NoteBlocks::decode(&mut reader, &header).is_ok());
}

#[test]
fn an_instrument_id_is_custom_from_the_count_on() {
    let bytes: Vec<u8> = vec![
        1, 0, 1, 0, 15, 1, 1, 0, 16, 2, 1, 0, 9, 3, 1, 0, 10, 4, 0, 0, 0, 0,
    ];
    let mut table = Vec::new();
    for _ in 0..4 {
        table.extend_from_slice(&[0, 0, 0, 0, 100]);
    }
    let mut extended = bytes.clone();
    extended.extend_from_slice(&table);
    let header = header_for(NbsFormat::OpenNoteBlockStudio(1), 4);
    assert_eq!(header.vannila_instrument_count().unwrap(), 16);
    let mut reader = ByteReader::new(&extended);
    let blocks = NoteBlocks::decode(&mut reader, &header).unwrap();
    assert_eq!(blocks.layers[0].notes[&0].instrument, Instrument::Vanilla(15));
    assert_eq!(blocks.layers[1].notes[&0].instrument, Instrument::Custom(16));
    assert_eq!(blocks.layers[2].notes[&0].instrument, Instrument::Vanilla(9));
    assert_eq!(blocks.layers[3].notes[&0].instrument, Instrument::Vanilla(10));

    let legacy = header_for(NbsFormat::NoteBlockStudio, 4);
    let mut reader = ByteReader::new(&extended);
    let blocks = NoteBlocks::decode(&mut reader, &legacy).unwrap();
    assert_eq!(blocks.layers[0].notes[&0].instrument, Instrument::Custom(15));
    assert_eq!(blocks.layers[1].notes[&0].instrument, Instrument::Custom(16));
    assert_eq!(blocks.layers[2].notes[&0].instrument, Instrument::Vanilla(9));
    assert_eq!(blocks.layers[3].notes[&0].instrument, Instrument::Custom(10));
    assert!(blocks.layers[3].notes[&0].instrument.is_custom());
    assert!(!blocks.layers[2].notes[&0].instrument.is_custom());
}

#[test]
fn note_blocks_are_written_as_they_were_read() {
    let bytes: Vec<u8> = vec![
        1, 0, 1, 0, 1, 10, 80, 100, 0x10, 0x00, 0, 0, 5, 0, 1, 0, 2, 20, 90, 110, 0xf0, 0xff,
        2, 0, 17, 30, 100, 120, 0, 0, 0, 0, 0, 0, 1, 0, 0, 0, b'a', 1, 11, 12, 0, 0, 0, 0, 0,
        21, 22, 1, 0, 0, 0, b'c', 0, 31, 32,
    ];
    let header = header_for(NbsFormat::OpenNoteBlockStudio(4), 3);
    let mut reader = ByteReader::new(&bytes);
    let blocks = NoteBlocks::decode(&mut reader, &header).unwrap();
    assert_eq!(
        blocks.layers[2].notes[&5],
        Note::new(Instrument::Custom(17), 30, Some(100), Some(120), Some(0))
    );
    assert_eq!(
        blocks.layers[0].notes[&5],
        Note::new(Instrument::Vanilla(2), 20, Some(90), Some(110), Some(-16))
    );
    assert_eq!(blocks.layers[0].locked, Some(true));
    assert_eq!(blocks.layers[1].locked, Some(false));
    let mut out = Vec::new();
    blocks.encode(header.format, &mut out).unwrap();
    assert_eq!(out, bytes);
}

#[test]
fn a_built_grid_is_read_back() {
    let format = NbsFormat::OpenNoteBlockStudio(4);
    let mut blocks = blocks_of(format, 40);
    let mut placed = Vec::new();
    let mut seed: u32 = 12345;
    for _ in 0..300 {
        seed = seed.wrapping_mul(1_103_515_245).wrapping_add(12_345);
        let layer = ((seed >> 16) % 40) as usize;
        seed = seed.wrapping_mul(1_103_515_245).wrapping_add(12_345);
        let tick = ((seed >> 16) % 500) as i16;
        seed = seed.wrapping_mul(1_103_515_245).wrapping_add(12_345);
        let id = ((seed >> 16) % 30) as i8;
        let note = Note::new(
            Instrument::from_id(id, 16),
            (tick % 88) as i8,
            Some((layer % 101) as i8),
            Some(100),
            Some(tick - 250),
        );
        blocks.layers[layer].notes.insert(tick, note);
        placed.push((layer, tick));
    }
    for (index, layer) in blocks.layers.iter_mut().enumerate() {
        layer.name = format!("layer {}", index);
        layer.volume = Some(index as i8);
    }
    let mut out = Vec::new();
    blocks.encode(format, &mut out).unwrap();
    let header = header_for(format, 40);
    let mut reader = ByteReader::new(&out);
    let read = NoteBlocks::decode(&mut reader, &header).unwrap();
    assert!(reader.read_i8().is_err());
    assert_eq!(read.layers.len(), 40);
    for index in 0..40 {
        assert_eq!(read.layers[index].name, blocks.layers[index].name);
        assert_eq!(read.layers[index].locked, blocks.layers[index].locked);
        assert_eq!(read.layers[index].volume, blocks.layers[index].volume);
        assert_eq!(read.layers[index].stereo, blocks.layers[index].stereo);
        assert_eq!(read.layers[index].notes, blocks.layers[index].notes);
    }
    for (layer, tick) in placed {
        assert!(read.layers[layer].notes.contains_key(&tick));
    }
    assert_eq!(read.calculate_length(), blocks.calculate_length());
}

#[test]
fn the_built_in_instruments_have_their_places() {
    assert_eq!(PIANO, 0);
    assert_eq!(BELL, 7);
    assert_eq!(nbs::noteblocks::instrument::DOUBLE_BASS, 1);
    assert_eq!(nbs::noteblocks::instrument::BASS_DRUM, 2);
    assert_eq!(nbs::noteblocks::instrument::SNARE_DRUM, 3);
    assert_eq!(nbs::noteblocks::instrument::CLICK, 4);
    assert_eq!(nbs::noteblocks::instrument::GUITAR, 5);
    assert_eq!(nbs::noteblocks::instrument::FLUTE, 6);
    assert_eq!(nbs::noteblocks::instrument::CHIME, 8);
    assert_eq!(nbs::noteblocks::instrument::XYLOPHONE, 9);
    assert_eq!(nbs::noteblocks::instrument::IRON_XYLOPHONE, 10);
    assert_eq!(nbs::noteblocks::instrument::COW_BELL, 11);
    assert_eq!(nbs::noteblocks::instrument::DIDGERIDOO, 12);
    assert_eq!(nbs::noteblocks::instrument::BIT, 13);
    assert_eq!(nbs::noteblocks::instrument::BANJO, 14);
    assert_eq!(nbs::noteblocks::instrument::PLING, 15);
}
