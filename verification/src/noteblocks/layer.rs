//! A layer: a row of the note grid, with its name and settings.

use super::note::Note;
use crate::error::NbsError;
use crate::error::NbsErrorKind;
use crate::io::flag_bytes;
use crate::io::i8_bytes;
use crate::io::join;
use crate::io::lemma_flag_round_trip;
use crate::io::lemma_i8_bytes_round_trip;
use crate::io::lemma_string_round_trip;
use crate::io::string_bytes;
use crate::io::take_flag;
use crate::io::take_i8;
use crate::io::take_string;
use crate::io::write_flag;
use crate::io::write_i8;
use crate::io::write_string;
use crate::io::ByteReader;
use crate::io::Parsed;
use crate::NbsFormat;
use std::collections::HashMap;
use vstd::prelude::*;

verus! {

/// A layer of a song: its notes by tick, and its settings.
#[derive(Debug)]
pub struct Layer {
    /// The name of the layer.
    pub name: String,
    /// Whether the layer is locked. From version 4 on.
    pub locked: Option<bool>,
    /// The volume of the layer in percent. Every layout has it on the wire;
    /// a layer that is built by hand may leave it open.
    pub volume: Option<i8>,
    /// The stereo position of the layer. From version 2 on.
    pub stereo: Option<i8>,
    /// The notes of the layer, each under its tick: at most one per tick.
    pub notes: HashMap<i16, Note>,
}

/// A layer as a mathematical value.
#[verifier::ext_equal]
pub struct LayerView {
    pub name: Seq<char>,
    pub locked: Option<bool>,
    pub volume: Option<i8>,
    pub stereo: Option<i8>,
    pub notes: Map<i16, Note>,
}

impl View for Layer {
    type V = LayerView;

    open spec fn view(&self) -> LayerView {
        LayerView {
            name: self.name@,
            locked: self.locked,
            volume: self.volume,
            stereo: self.stereo,
            notes: self.notes@,
        }
    }
}

impl LayerView {
    /// The layer that [`Layer::new`] makes: no name, no notes, full volume,
    /// and neither lock nor stereo position.
    pub open spec fn bare() -> LayerView {
        LayerView {
            name: Seq::empty(),
            locked: None,
            volume: Some(100),
            stereo: None,
            notes: Map::empty(),
        }
    }

    /// The layer that [`Layer::from_format`] makes: a bare layer with the
    /// fields that `format` has, unlocked and in the centre.
    pub open spec fn blank(format: NbsFormat) -> LayerView {
        LayerView {
            name: Seq::empty(),
            locked: if format.version() >= 4 {
                Some(false)
            } else {
                None
            },
            volume: Some(100),
            stereo: if format.version() >= 2 {
                Some(100i8)
            } else {
                None
            },
            notes: Map::empty(),
        }
    }

    /// Whether the settings of the layer are present exactly where
    /// `version` has them: the volume always, the stereo position from
    /// version 2 on, the lock from version 4 on.
    pub open spec fn follows(self, version: i8) -> bool {
        &&& self.locked is Some <==> version >= 4
        &&& self.volume is Some
        &&& self.stereo is Some <==> version >= 2
    }
}

/// The entry of a layer in the layer table: its name, from version 4 on its
/// lock, its volume, from version 2 on its stereo position. The volume must
/// be present, and so must the others where the version has them.
pub open spec fn layer_bytes(l: LayerView, version: i8) -> Option<Seq<u8>> {
    join(
        string_bytes(l.name),
        join(
            if version >= 4 {
                match l.locked {
                    Some(b) => Some(flag_bytes(b)),
                    None => None,
                }
            } else {
                Some(Seq::empty())
            },
            join(
                match l.volume {
                    Some(v) => Some(i8_bytes(v)),
                    None => None,
                },
                if version >= 2 {
                    match l.stereo {
                        Some(v) => Some(i8_bytes(v)),
                        None => None,
                    }
                } else {
                    Some(Seq::empty())
                },
            ),
        ),
    )
}

/// Reads the lock of a layer, which is there from version 4 on; below
/// that the layer keeps `kept`.
pub open spec fn take_lock(s: Seq<u8>, kept: Option<bool>, version: i8) -> Parsed<Option<bool>> {
    if version >= 4 {
        match take_flag(s) {
            Err(k) => Err(k),
            Ok((b, s)) => Ok((Some(b), s)),
        }
    } else {
        Ok((kept, s))
    }
}

/// Reads the stereo position of a layer, which is there from version 2 on;
/// below that the layer keeps `kept`.
pub open spec fn take_stereo(s: Seq<u8>, kept: Option<i8>, version: i8) -> Parsed<Option<i8>> {
    if version >= 2 {
        match take_i8(s) {
            Err(k) => Err(k),
            Ok((v, s)) => Ok((Some(v), s)),
        }
    } else {
        Ok((kept, s))
    }
}

/// Reads the entry of a layer in the layer table into `l`, whose notes
/// stay.
pub open spec fn take_layer(s: Seq<u8>, l: LayerView, version: i8) -> Parsed<LayerView> {
    match take_string(s) {
        Err(k) => Err(k),
        Ok((name, s)) => match take_lock(s, l.locked, version) {
            Err(k) => Err(k),
            Ok((locked, s)) => match take_i8(s) {
                Err(k) => Err(k),
                Ok((volume, s)) => match take_stereo(s, l.stereo, version) {
                    Err(k) => Err(k),
                    Ok((stereo, s)) => Ok(
                        (LayerView { name, locked, volume: Some(volume), stereo, notes: l.notes }, s),
                    ),
                },
            },
        },
    }
}

impl Layer {
    /// A layer with no name and no notes, at full volume, with neither lock
    /// nor stereo position.
    pub fn new() -> (r: Self)
        ensures
            r@ == LayerView::bare(),
    {
        Layer {
            name: String::new(),
            locked: None,
            volume: Some(100),
            stereo: None,
            notes: HashMap::new(),
        }
    }

    /// A layer with no name and no notes, at full volume, with the fields
    /// that `format` has: unlocked from version 4 on, in the centre from
    /// version 2 on.
    pub fn from_format(format: NbsFormat) -> (r: Self)
        ensures
            r@ == LayerView::blank(format),
    {
        let mut layer = Layer::new();
        if format.version() >= 4 {
            layer.locked = Some(false);
        }
        if format.version() >= 2 {
            layer.stereo = Some(100);
        }
        layer
    }

    /// The greatest tick at which the layer has a note, and 0 where it has
    /// none beyond tick 0.
    pub(crate) fn last_tick(&self) -> (r: i16)
        ensures
            r >= 0,
            forall|tick: i16| self@.notes.contains_key(tick) ==> tick <= r,
            r > 0 ==> self@.notes.contains_key(r),
    {
        broadcast use vstd::std_specs::hash::group_hash_axioms;

        let mut last: i16 = 0;
        for tick in it: self.notes.keys()
            invariant
                last >= 0,
                it.seq().unref().to_set() == self.notes@.dom(),
                forall|tick: i16|
                    self.notes@.contains_key(tick) ==> tick <= last || exists|i: int|
                        it.index() <= i < it.seq().len() && #[trigger] it.seq().unref()[i] == tick,
                last > 0 ==> self.notes@.contains_key(last),
        {
            if *tick > last {
                last = *tick;
            }
        }
        last
    }

    /// Reads the entry of the layer in the layer table. The notes of the
    /// layer stay.
    pub(crate) fn read_entry(&mut self, reader: &mut ByteReader, version: i8) -> (r: Result<
        (),
        NbsError,
    >)
        ensures
            match take_layer(old(reader).remaining(), old(self)@, version) {
                Ok((v, rest)) => r is Ok && final(self)@ == v && final(reader).remaining() == rest,
                Err(k) => r matches Err(e) && e.kind() == k,
            },
    {
        let name = reader.read_string()?;
        let locked = if version >= 4 {
            Some(reader.read_flag()?)
        } else {
            self.locked
        };
        let volume = reader.read_i8()?;
        let stereo = if version >= 2 {
            Some(reader.read_i8()?)
        } else {
            self.stereo
        };
        self.name = name;
        self.locked = locked;
        self.volume = Some(volume);
        self.stereo = stereo;
        Ok(())
    }

    /// Appends the entry of the layer in the layer table.
    pub(crate) fn write_entry(&self, version: i8, out: &mut Vec<u8>) -> (r: Result<(), NbsError>)
        ensures
            match layer_bytes(self@, version) {
                Some(b) => r is Ok && final(out)@ == old(out)@ + b,
                None => r matches Err(e) && e is InvalidFormat,
            },
    {
        write_string(out, self.name.as_str())?;
        if version >= 4 {
            match self.locked {
                Some(b) => {
                    write_flag(out, b);
                },
                None => {
                    return Err(NbsError::InvalidFormat);
                },
            }
        }
        match self.volume {
            Some(v) => {
                write_i8(out, v);
            },
            None => {
                return Err(NbsError::InvalidFormat);
            },
        }
        if version >= 2 {
            match self.stereo {
                Some(v) => {
                    write_i8(out, v);
                },
                None => {
                    return Err(NbsError::InvalidFormat);
                },
            }
        }
        Ok(())
    }
}

/// An entry of the layer table that is read has its settings exactly
/// where the version has them, if the layer that it is read into had its
/// lock and stereo position so; the notes stay.
pub proof fn lemma_take_layer(s: Seq<u8>, l: LayerView, version: i8)
    requires
        l.locked is Some <==> version >= 4,
        l.stereo is Some <==> version >= 2,
    ensures
        take_layer(s, l, version) matches Ok((got, rest)) ==> got.follows(version) && got.notes
            == l.notes,
{
}

/// Reading the entry of a layer from its bytes gives the layer back, where
/// its settings follow the version.
pub proof fn lemma_layer_round_trip(l: LayerView, base: LayerView, version: i8, rest: Seq<u8>)
    requires
        l.follows(version),
        layer_bytes(l, version) is Some,
        base.notes == l.notes,
        base.locked is None <==> version < 4,
        base.stereo is None <==> version < 2,
    ensures
        take_layer(layer_bytes(l, version).unwrap() + rest, base, version) == Ok::<
            (LayerView, Seq<u8>),
            NbsErrorKind,
        >((l, rest)),
{
    let s3 = if version >= 2 {
        i8_bytes(l.stereo.unwrap()) + rest
    } else {
        rest
    };
    let s2 = i8_bytes(l.volume.unwrap()) + s3;
    let s1 = if version >= 4 {
        flag_bytes(l.locked.unwrap()) + s2
    } else {
        s2
    };
    if version >= 2 {
        lemma_i8_bytes_round_trip(l.stereo.unwrap(), rest);
    }
    lemma_i8_bytes_round_trip(l.volume.unwrap(), s3);
    if version >= 4 {
        lemma_flag_round_trip(l.locked.unwrap(), s2);
    }
    lemma_string_round_trip(l.name, s1);
    assert(layer_bytes(l, version).unwrap() + rest =~= string_bytes(l.name).unwrap() + s1);
}

} // verus!
