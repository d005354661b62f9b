//! Instruments: the built-in ones, and the table of custom ones at the end
//! of a song.

use crate::error::NbsError;
use crate::error::NbsErrorKind;
use crate::header::Header;
use crate::io::flag_bytes;
use crate::io::i8_bytes;
use crate::io::join;
use crate::io::lemma_flag_round_trip;
use crate::io::lemma_i8_bytes_round_trip;
use crate::io::lemma_string_round_trip;
use crate::io::string_bytes;
use crate::io::take_flag;
use crate::io::take_i8;
use crate::io::take_string;
use crate::io::write_flag;
use crate::io::write_i8;
use crate::io::write_string;
use crate::io::ByteReader;
use crate::io::Parsed;
use vstd::prelude::*;

verus! {

/// The index of the piano among the built-in instruments.
pub const PIANO: i8 = 0;

/// The index of the double bass among the built-in instruments.
pub const DOUBLE_BASS: i8 = 1;

/// The index of the bass drum among the built-in instruments.
pub const BASS_DRUM: i8 = 2;

/// The index of the snare drum among the built-in instruments.
pub const SNARE_DRUM: i8 = 3;

/// The index of the click among the built-in instruments.
pub const CLICK: i8 = 4;

/// The index of the guitar among the built-in instruments.
pub const GUITAR: i8 = 5;

/// The index of the flute among the built-in instruments.
pub const FLUTE: i8 = 6;

/// The index of the bell among the built-in instruments.
pub const BELL: i8 = 7;

/// The index of the chime among the built-in instruments.
pub const CHIME: i8 = 8;

/// The index of the xylophone among the built-in instruments.
pub const XYLOPHONE: i8 = 9;

/// The index of the iron xylophone among the built-in instruments.
pub const IRON_XYLOPHONE: i8 = 10;

/// The index of the cow bell among the built-in instruments.
pub const COW_BELL: i8 = 11;

/// The index of the didgeridoo among the built-in instruments.
pub const DIDGERIDOO: i8 = 12;

/// The index of the bit among the built-in instruments.
pub const BIT: i8 = 13;

/// The index of the banjo among the built-in instruments.
pub const BANJO: i8 = 14;

/// The index of the pling among the built-in instruments.
pub const PLING: i8 = 15;

/// The instrument of a note: a built-in one by its index, or a custom one
/// by its id, which lies at or above the count of built-in instruments.
#[derive(Debug, Clone, Copy, PartialEq, Eq, Structural)]
pub enum Instrument {
    Vanilla(i8),
    Custom(i8),
}

impl Instrument {
    /// Whether the instrument is a custom one.
    pub open spec fn spec_is_custom(&self) -> bool {
        self is Custom
    }

    /// Whether the instrument is a custom one.
    #[verifier::when_used_as_spec(spec_is_custom)]
    pub fn is_custom(&self) -> (r: bool)
        ensures
            r == (self is Custom),
    {
        match self {
            Instrument::Custom(_) => true,
            _ => false,
        }
    }

    /// The number that stands for the instrument in a note.
    pub open spec fn spec_id(&self) -> i8 {
        match self {
            Instrument::Custom(id) => *id,
            Instrument::Vanilla(id) => *id,
        }
    }

    /// The number that stands for the instrument in a note.
    #[verifier::when_used_as_spec(spec_id)]
    pub fn id(&self) -> (r: i8)
        ensures
            r == self.spec_id(),
    {
        match self {
            Instrument::Custom(id) => *id,
            Instrument::Vanilla(id) => *id,
        }
    }

    /// The instrument that `id` stands for where `vanilla_count` built-in
    /// instruments exist: a custom one from `vanilla_count` on, a built-in
    /// one below.
    pub open spec fn classify(id: i8, vanilla_count: i8) -> Instrument {
        if id >= vanilla_count {
            Instrument::Custom(id)
        } else {
            Instrument::Vanilla(id)
        }
    }

    /// The instrument that `id` stands for where `vanilla_count` built-in
    /// instruments exist.
    pub fn from_id(id: i8, vanilla_count: i8) -> (r: Self)
        ensures
            r == Self::classify(id, vanilla_count),
            r.id() == id,
            r.is_custom() <==> id >= vanilla_count,
    {
        if id >= vanilla_count {
            Instrument::Custom(id)
        } else {
            Instrument::Vanilla(id)
        }
    }
}

impl From<Instrument> for i8 {
    /// The number that stands for the instrument in a note.
    fn from(instrument: Instrument) -> (r: i8) {
        instrument.id()
    }
}

impl vstd::std_specs::convert::FromSpecImpl<Instrument> for i8 {
    open spec fn obeys_from_spec() -> bool {
        true
    }

    open spec fn from_spec(instrument: Instrument) -> i8 {
        instrument.id()
    }
}

/// An entry of the table of custom instruments.
#[derive(Debug)]
pub struct CustomInstrumentInfo {
    /// The id under which notes name the instrument.
    pub instrument: Instrument,
    /// The name of the instrument.
    pub name: String,
    /// The name of its sound file.
    pub file_name: String,
    /// The pitch of the sound file.
    pub pitch: i8,
    /// Whether the piano key is pressed when the instrument sounds.
    pub press_key: bool,
}

/// An entry of the table of custom instruments as a mathematical value.
#[verifier::ext_equal]
pub struct CustomInstrumentView {
    pub instrument: Instrument,
    pub name: Seq<char>,
    pub file_name: Seq<char>,
    pub pitch: i8,
    pub press_key: bool,
}

impl View for CustomInstrumentInfo {
    type V = CustomInstrumentView;

    open spec fn view(&self) -> CustomInstrumentView {
        CustomInstrumentView {
            instrument: self.instrument,
            name: self.name@,
            file_name: self.file_name@,
            pitch: self.pitch,
            press_key: self.press_key,
        }
    }
}

/// The table of custom instruments of a song, in the order of the file.
#[derive(Debug)]
pub struct CustomInstruments {
    pub instruments: Vec<CustomInstrumentInfo>,
}

impl View for CustomInstruments {
    type V = Seq<CustomInstrumentView>;

    open spec fn view(&self) -> Seq<CustomInstrumentView> {
        self.instruments@.map_values(|i: CustomInstrumentInfo| i@)
    }
}

/// The bytes of one entry: name, file name, pitch and the key flag. The id
/// is not written.
pub open spec fn instrument_bytes(entry: CustomInstrumentView) -> Option<Seq<u8>> {
    join(
        string_bytes(entry.name),
        join(string_bytes(entry.file_name), Some(i8_bytes(entry.pitch) + flag_bytes(entry.press_key))),
    )
}

/// The bytes of the entries from index `from` on.
pub open spec fn entries_bytes(table: Seq<CustomInstrumentView>, from: int) -> Option<Seq<u8>>
    decreases table.len() - from,
{
    if from < 0 || from >= table.len() {
        Some(Seq::empty())
    } else {
        join(instrument_bytes(table[from]), entries_bytes(table, from + 1))
    }
}

/// The bytes of the table: the number of entries in one byte, then the
/// entries. A table of more than 127 entries has none.
pub open spec fn instruments_bytes(table: Seq<CustomInstrumentView>) -> Option<Seq<u8>> {
    if table.len() > i8::MAX {
        None
    } else {
        join(Some(i8_bytes(table.len() as i8)), entries_bytes(table, 0))
    }
}

/// Reads one entry, which gets the id `id`.
pub open spec fn take_instrument(s: Seq<u8>, id: i8) -> Parsed<CustomInstrumentView> {
    match take_string(s) {
        Err(k) => Err(k),
        Ok((name, s)) => match take_string(s) {
            Err(k) => Err(k),
            Ok((file_name, s)) => match take_i8(s) {
                Err(k) => Err(k),
                Ok((pitch, s)) => match take_flag(s) {
                    Err(k) => Err(k),
                    Ok((press_key, s)) => Ok(
                        (
                            CustomInstrumentView {
                                instrument: Instrument::Custom(id),
                                name,
                                file_name,
                                pitch,
                                press_key,
                            },
                            s,
                        ),
                    ),
                },
            },
        },
    }
}

/// Reads the entries from index `index` up to `count` behind `table`. The
/// entry at `index` gets the id `index + vanilla`: the table is malformed
/// where the header gives no count of built-in instruments, or where that
/// id is beyond `i8::MAX`.
pub open spec fn take_entries(
    s: Seq<u8>,
    index: int,
    count: int,
    vanilla: Option<i8>,
    table: Seq<CustomInstrumentView>,
) -> Parsed<Seq<CustomInstrumentView>>
    decreases count - index,
{
    if index >= count {
        Ok((table, s))
    } else {
        match vanilla {
            None => Err(NbsErrorKind::InvalidFormat),
            Some(first) => if index + first > i8::MAX {
                Err(NbsErrorKind::InvalidFormat)
            } else {
                match take_instrument(s, (index + first) as i8) {
                    Err(k) => Err(k),
                    Ok((entry, s)) => take_entries(s, index + 1, count, vanilla, table.push(entry)),
                }
            },
        }
    }
}

/// Reads the table of custom instruments: a count in one byte, then that
/// many entries; a count below zero stands for none.
pub open spec fn parse_instruments(s: Seq<u8>, vanilla: Option<i8>) -> Parsed<
    Seq<CustomInstrumentView>,
> {
    match take_i8(s) {
        Err(k) => Err(k),
        Ok((count, s)) => take_entries(s, 0, count as int, vanilla, Seq::empty()),
    }
}

/// Whether the table has the shape that decoding gives where `first`
/// built-in instruments exist: at most 127 entries, the entry at index `i`
/// with the custom id `i + first`.
pub open spec fn canonical_instruments(table: Seq<CustomInstrumentView>, first: i8) -> bool {
    &&& table.len() <= i8::MAX
    &&& forall|i: int|
        0 <= i < table.len() ==> i + first <= i8::MAX && (#[trigger] table[i]).instrument
            == Instrument::Custom((i + first) as i8)
}

impl CustomInstruments {
    /// An empty table.
    pub fn new() -> (r: Self)
        ensures
            r@ == Seq::<CustomInstrumentView>::empty(),
    {
        CustomInstruments { instruments: Vec::new() }
    }

    /// Reads one entry, which gets the id `id`.
    fn read_entry(reader: &mut ByteReader, id: i8) -> (r: Result<CustomInstrumentInfo, NbsError>)
        ensures
            match take_instrument(old(reader).remaining(), id) {
                Ok((v, rest)) => r matches Ok(x) && x@ == v && final(reader).remaining() == rest,
                Err(k) => r matches Err(e) && e.kind() == k,
            },
    {
        let name = reader.read_string()?;
        let file_name = reader.read_string()?;
        let pitch = reader.read_i8()?;
        let press_key = reader.read_flag()?;
        Ok(
            CustomInstrumentInfo {
                instrument: Instrument::Custom(id),
                name,
                file_name,
                pitch,
                press_key,
            },
        )
    }

    /// Reads the table. On failure the reader is left at the field that
    /// failed.
    fn read(reader: &mut ByteReader, vanilla: Option<i8>) -> (r: Result<Self, NbsError>)
        ensures
            match parse_instruments(old(reader).remaining(), vanilla) {
                Ok((v, rest)) => r matches Ok(x) && x@ == v && final(reader).remaining() == rest,
                Err(k) => r matches Err(e) && e.kind() == k,
            },
    {
        let ghost whole = parse_instruments(reader.remaining(), vanilla);
        let count = reader.read_i8()?;
        let mut table = CustomInstruments { instruments: Vec::new() };
        assert(table@ =~= Seq::<CustomInstrumentView>::empty());
        let mut index: i8 = 0;
        while index < count
            invariant
                0 <= index,
                whole == parse_instruments(old(reader).remaining(), vanilla),
                take_entries(reader.remaining(), index as int, count as int, vanilla, table@)
                    == whole,
            decreases count - index,
        {
            let first = match vanilla {
                Some(first) => first,
                None => {
                    return Err(NbsError::InvalidFormat);
                },
            };
            if index as i16 + first as i16 > 127 {
                return Err(NbsError::InvalidFormat);
            }
            let ghost before = table@;
            let entry = Self::read_entry(reader, index + first)?;
            let ghost added = entry@;
            table.instruments.push(entry);
            assert(table@ =~= before.push(added));
            index = index + 1;
        }
        Ok(table)
    }

    /// Decodes the table of custom instruments from the bytes at the
    /// reader, which moves behind it. The entry at index `i` gets the id
    /// `i` plus the count of built-in instruments that `header` gives, so
    /// that no custom id is that of a built-in instrument. On failure the
    /// reader stays where it was.
    pub fn decode(reader: &mut ByteReader, header: &Header) -> (r: Result<Self, NbsError>)
        ensures
            match parse_instruments(old(reader).remaining(), header@.vanilla_count()) {
                Ok((v, rest)) => r matches Ok(x) && x@ == v && final(reader).remaining() == rest,
                Err(k) => r matches Err(e) && e.kind() == k && *final(reader) == *old(reader),
            },
    {
        let vanilla = match header.vannila_instrument_count() {
            Ok(count) => Some(count),
            Err(_) => None,
        };
        let mut cursor = *reader;
        match Self::read(&mut cursor, vanilla) {
            Ok(table) => {
                *reader = cursor;
                Ok(table)
            },
            Err(e) => Err(e),
        }
    }

    /// Appends the entries of the table. On failure `out` may hold a part
    /// of them.
    fn write_entries(&self, out: &mut Vec<u8>) -> (r: Result<(), NbsError>)
        ensures
            match entries_bytes(self@, 0) {
                Some(b) => r is Ok && final(out)@ == old(out)@ + b,
                None => r matches Err(e) && e is InvalidFormat,
            },
    {
        let ghost whole = entries_bytes(self@, 0);
        let ghost mut done: Seq<u8> = Seq::empty();
        let mut index: usize = 0;
        while index < self.instruments.len()
            invariant
                index <= self.instruments.len(),
                whole == entries_bytes(self@, 0),
                out@ == old(out)@ + done,
                join(Some(done), entries_bytes(self@, index as int)) == whole,
            decreases self.instruments.len() - index,
        {
            let entry = &self.instruments[index];
            let ghost bytes = instrument_bytes(self@[index as int]);
            write_string(out, entry.name.as_str())?;
            write_string(out, entry.file_name.as_str())?;
            write_i8(out, entry.pitch);
            write_flag(out, entry.press_key);
            proof {
                done = done + bytes.unwrap();
            }
            index = index + 1;
        }
        Ok(())
    }

    /// The bytes of the table, or the failure where it has more than 127
    /// entries or a string is too long.
    pub(crate) fn to_bytes(&self) -> (r: Result<Vec<u8>, NbsError>)
        ensures
            match instruments_bytes(self@) {
                Some(b) => r matches Ok(v) && v@ == b,
                None => r matches Err(e) && e is InvalidFormat,
            },
    {
        let count = self.instruments.len();
        if count > 127 {
            return Err(NbsError::InvalidFormat);
        }
        let mut out: Vec<u8> = Vec::new();
        write_i8(&mut out, count as i8);
        self.write_entries(&mut out)?;
        Ok(out)
    }

    /// Encodes the table and appends it to `writer`: the number of entries,
    /// then the entries in their order; ids are not written. A table of
    /// more than 127 entries, or with a string longer than a 32-bit length
    /// can say, cannot be written: `writer` is then left as it was.
    pub fn encode(&self, writer: &mut Vec<u8>) -> (r: Result<(), NbsError>)
        ensures
            match instruments_bytes(self@) {
                Some(b) => r is Ok && final(writer)@ == old(writer)@ + b,
                None => r matches Err(e) && e is InvalidFormat && final(writer)@ == old(writer)@,
            },
    {
        let mut bytes = self.to_bytes()?;
        writer.append(&mut bytes);
        Ok(())
    }
}

/// Reading one entry from its bytes gives the entry back.
proof fn lemma_instrument_round_trip(entry: CustomInstrumentView, rest: Seq<u8>)
    requires
        instrument_bytes(entry) is Some,
    ensures
        take_instrument(instrument_bytes(entry).unwrap() + rest, entry.instrument.id()) == Ok::<
            (CustomInstrumentView, Seq<u8>),
            NbsErrorKind,
        >(
            (
                CustomInstrumentView {
                    instrument: Instrument::Custom(entry.instrument.id()),
                    ..entry
                },
                rest,
            ),
        ),
{
    let s3 = flag_bytes(entry.press_key) + rest;
    let s2 = i8_bytes(entry.pitch) + s3;
    let s1 = string_bytes(entry.file_name).unwrap() + s2;
    lemma_flag_round_trip(entry.press_key, rest);
    lemma_i8_bytes_round_trip(entry.pitch, s3);
    lemma_string_round_trip(entry.file_name, s2);
    lemma_string_round_trip(entry.name, s1);
    assert(instrument_bytes(entry).unwrap() + rest =~= string_bytes(entry.name).unwrap() + s1);
}

/// Reading the entries from index `from` on from their bytes, behind the
/// entries before them, gives the whole table.
proof fn lemma_entries_round_trip(
    table: Seq<CustomInstrumentView>,
    first: i8,
    from: int,
    rest: Seq<u8>,
)
    requires
        canonical_instruments(table, first),
        0 <= from <= table.len(),
        entries_bytes(table, from) is Some,
    ensures
        take_entries(
            entries_bytes(table, from).unwrap() + rest,
            from,
            table.len() as int,
            Some(first),
            table.take(from),
        ) == Ok::<(Seq<CustomInstrumentView>, Seq<u8>), NbsErrorKind>((table, rest)),
    decreases table.len() - from,
{
    if from >= table.len() {
        assert(table.take(from) =~= table);
    } else {
        let entry = table[from];
        let b = instrument_bytes(entry).unwrap();
        let tail = entries_bytes(table, from + 1).unwrap();
        lemma_instrument_round_trip(entry, tail + rest);
        lemma_entries_round_trip(table, first, from + 1, rest);
        assert(entries_bytes(table, from).unwrap() + rest =~= b + (tail + rest));
        assert(table.take(from).push(entry) =~= table.take(from + 1));
    }
}

/// Decoding the bytes of a canonical table gives the table back, entry for
/// entry, and leaves what follows the table.
pub proof fn lemma_instruments_round_trip(
    table: Seq<CustomInstrumentView>,
    first: i8,
    rest: Seq<u8>,
)
    requires
        canonical_instruments(table, first),
        instruments_bytes(table) is Some,
    ensures
        parse_instruments(instruments_bytes(table).unwrap() + rest, Some(first)) == Ok::<
            (Seq<CustomInstrumentView>, Seq<u8>),
            NbsErrorKind,
        >((table, rest)),
{
    let entries = entries_bytes(table, 0).unwrap();
    lemma_i8_bytes_round_trip(table.len() as i8, entries + rest);
    lemma_entries_round_trip(table, first, 0, rest);
    assert(instruments_bytes(table).unwrap() + rest =~= i8_bytes(table.len() as i8) + (entries
        + rest));
    assert(table.take(0) =~= Seq::<CustomInstrumentView>::empty());
}

/// The entries that are read behind a canonical beginning of a table make
/// a canonical table.
proof fn lemma_entries_are_canonical(
    s: Seq<u8>,
    index: int,
    count: int,
    vanilla: Option<i8>,
    table: Seq<CustomInstrumentView>,
)
    requires
        0 <= index,
        count <= i8::MAX,
        table.len() == index,
        index > 0 ==> vanilla is Some,
        vanilla matches Some(first) ==> canonical_instruments(table, first),
    ensures
        take_entries(s, index, count, vanilla, table) matches Ok((got, rest)) ==> {
            &&& got.len() > 0 ==> vanilla is Some
            &&& vanilla matches Some(first) ==> canonical_instruments(got, first)
        },
    decreases count - index,
{
    if index < count {
        if let Some(first) = vanilla {
            if index + first <= i8::MAX {
                if let Ok((entry, s1)) = take_instrument(s, (index + first) as i8) {
                    let next = table.push(entry);
                    assert forall|i: int| 0 <= i < next.len() implies i + first <= i8::MAX && (
                    #[trigger] next[i]).instrument == Instrument::Custom((i + first) as i8) by {}
                    lemma_entries_are_canonical(s1, index + 1, count, vanilla, next);
                }
            }
        }
    }
}

/// Whatever bytes a table of custom instruments is decoded from, it is
/// canonical: it has at most 127 entries, and the entry at index `i` has
/// the custom id `i` plus the count of built-in instruments. Without that
/// count the table is empty.
pub proof fn lemma_decoded_instruments_are_canonical(s: Seq<u8>, vanilla: Option<i8>)
    ensures
        parse_instruments(s, vanilla) matches Ok((table, rest)) ==> {
            &&& table.len() > 0 ==> vanilla is Some
            &&& vanilla matches Some(first) ==> canonical_instruments(table, first)
        },
{
    if let Ok((count, s1)) = take_i8(s) {
        lemma_entries_are_canonical(s1, 0, count as int, vanilla, Seq::empty());
    }
}

} // verus!
