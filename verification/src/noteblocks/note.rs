//! A single note block.

use super::instrument::Instrument;
use crate::error::NbsError;
use crate::error::NbsErrorKind;
use crate::io::i16_le;
use crate::io::i8_bytes;
use crate::io::lemma_i16_round_trip;
use crate::io::lemma_i8_bytes_round_trip;
use crate::io::take_i16;
use crate::io::take_i8;
use crate::io::write_i16;
use crate::io::write_i8;
use crate::io::ByteReader;
use crate::io::Parsed;
use vstd::prelude::*;

verus! {

/// A note block: what sounds at one tick of one layer.
#[derive(Debug, Clone, Copy, PartialEq, Eq)]
pub struct Note {
    /// The instrument, built-in or custom.
    pub instrument: Instrument,
    /// The key, from 0 (A0) to 87 (C8).
    pub key: i8,
    /// The volume in percent. From version 4 on.
    pub velocity: Option<i8>,
    /// The stereo position, from 0 to 200, 100 being the centre. From
    /// version 4 on.
    pub panning: Option<i8>,
    /// The fine pitch in cents. From version 4 on.
    pub pitch: Option<i16>,
}

impl Note {
    /// A note with the given fields.
    pub fn new(
        instrument: Instrument,
        key: i8,
        velocity: Option<i8>,
        panning: Option<i8>,
        pitch: Option<i16>,
    ) -> (r: Self)
        ensures
            r == (Note { instrument, key, velocity, panning, pitch }),
    {
        Note { instrument, key, velocity, panning, pitch }
    }

    /// Whether the note has velocity, panning and pitch exactly where
    /// `version` has them: from version 4 on.
    pub open spec fn follows(self, version: i8) -> bool {
        &&& self.velocity is Some <==> version >= 4
        &&& self.panning is Some <==> version >= 4
        &&& self.pitch is Some <==> version >= 4
    }

    /// Reads the fields of a note, behind its layer jump.
    pub(crate) fn read(reader: &mut ByteReader, vanilla: Option<i8>, version: i8) -> (r: Result<
        Note,
        NbsError,
    >)
        ensures
            match take_note(old(reader).remaining(), vanilla, version) {
                Ok((v, rest)) => r matches Ok(x) && x == v && final(reader).remaining() == rest,
                Err(k) => r matches Err(e) && e.kind() == k,
            },
    {
        let id = reader.read_i8()?;
        let instrument = match vanilla {
            Some(count) => Instrument::from_id(id, count),
            None => {
                return Err(NbsError::InvalidFormat);
            },
        };
        let key = reader.read_i8()?;
        if version >= 4 {
            let velocity = reader.read_i8()?;
            let panning = reader.read_i8()?;
            let pitch = reader.read_i16()?;
            Ok(
                Note {
                    instrument,
                    key,
                    velocity: Some(velocity),
                    panning: Some(panning),
                    pitch: Some(pitch),
                },
            )
        } else {
            Ok(Note { instrument, key, velocity: None, panning: None, pitch: None })
        }
    }

    /// Appends the fields of the note as `version` has them. From version 4
    /// on the note must have velocity, panning and pitch.
    pub(crate) fn write(&self, version: i8, out: &mut Vec<u8>) -> (r: Result<(), NbsError>)
        ensures
            match note_bytes(*self, version) {
                Some(b) => r is Ok && final(out)@ == old(out)@ + b,
                None => r matches Err(e) && e is InvalidFormat,
            },
    {
        write_i8(out, self.instrument.id());
        write_i8(out, self.key);
        if version >= 4 {
            match (self.velocity, self.panning, self.pitch) {
                (Some(velocity), Some(panning), Some(pitch)) => {
                    write_i8(out, velocity);
                    write_i8(out, panning);
                    write_i16(out, pitch);
                },
                _ => {
                    return Err(NbsError::InvalidFormat);
                },
            }
        }
        Ok(())
    }
}

/// The bytes of a note behind its layer jump: instrument id and key, and
/// from version 4 on velocity, panning and pitch, which must then be
/// present.
pub open spec fn note_bytes(n: Note, version: i8) -> Option<Seq<u8>> {
    if version >= 4 {
        if n.velocity is Some && n.panning is Some && n.pitch is Some {
            Some(
                i8_bytes(n.instrument.id()) + i8_bytes(n.key) + i8_bytes(n.velocity.unwrap())
                    + i8_bytes(n.panning.unwrap()) + i16_le(n.pitch.unwrap()),
            )
        } else {
            None
        }
    } else {
        Some(i8_bytes(n.instrument.id()) + i8_bytes(n.key))
    }
}

/// Reads the fields of a note. The instrument id is a custom one from
/// `vanilla` on, the count of built-in instruments that the header gives; a
/// header that gives none makes the note malformed.
pub open spec fn take_note(s: Seq<u8>, vanilla: Option<i8>, version: i8) -> Parsed<Note> {
    match take_i8(s) {
        Err(k) => Err(k),
        Ok((id, s)) => match vanilla {
            None => Err(NbsErrorKind::InvalidFormat),
            Some(count) => match take_i8(s) {
                Err(k) => Err(k),
                Ok((key, s)) => if version >= 4 {
                    match take_i8(s) {
                        Err(k) => Err(k),
                        Ok((velocity, s)) => match take_i8(s) {
                            Err(k) => Err(k),
                            Ok((panning, s)) => match take_i16(s) {
                                Err(k) => Err(k),
                                Ok((pitch, s)) => Ok(
                                    (
                                        Note {
                                            instrument: Instrument::classify(id, count),
                                            key,
                                            velocity: Some(velocity),
                                            panning: Some(panning),
                                            pitch: Some(pitch),
                                        },
                                        s,
                                    ),
                                ),
                            },
                        },
                    }
                } else {
                    Ok(
                        (
                            Note {
                                instrument: Instrument::classify(id, count),
                                key,
                                velocity: None,
                                panning: None,
                                pitch: None,
                            },
                            s,
                        ),
                    )
                },
            },
        },
    }
}

/// A note that is read has its optional fields exactly where the version
/// has them, its instrument is classified by the count, and fewer bytes are
/// left behind it.
pub proof fn lemma_take_note(s: Seq<u8>, vanilla: Option<i8>, version: i8)
    ensures
        take_note(s, vanilla, version) matches Ok((note, rest)) ==> {
            &&& note.follows(version)
            &&& vanilla matches Some(count) && note.instrument == Instrument::classify(
                note.instrument.id(),
                count,
            )
            &&& rest.len() < s.len()
        },
{
}

/// Reading a note from its bytes gives the note back, where its optional
/// fields follow the version and its instrument is classified by the count.
pub proof fn lemma_note_round_trip(n: Note, count: i8, version: i8, rest: Seq<u8>)
    requires
        n.follows(version),
        n.instrument == Instrument::classify(n.instrument.id(), count),
    ensures
        note_bytes(n, version) is Some,
        take_note(note_bytes(n, version).unwrap() + rest, Some(count), version) == Ok::<
            (Note, Seq<u8>),
            NbsErrorKind,
        >((n, rest)),
{
    let id = n.instrument.id();
    if version >= 4 {
        let s4 = i16_le(n.pitch.unwrap()) + rest;
        let s3 = i8_bytes(n.panning.unwrap()) + s4;
        let s2 = i8_bytes(n.velocity.unwrap()) + s3;
        let s1 = i8_bytes(n.key) + s2;
        lemma_i16_round_trip(n.pitch.unwrap(), rest);
        lemma_i8_bytes_round_trip(n.panning.unwrap(), s4);
        lemma_i8_bytes_round_trip(n.velocity.unwrap(), s3);
        lemma_i8_bytes_round_trip(n.key, s2);
        lemma_i8_bytes_round_trip(id, s1);
        assert(note_bytes(n, version).unwrap() + rest =~= i8_bytes(id) + s1);
    } else {
        let s1 = i8_bytes(n.key) + rest;
        lemma_i8_bytes_round_trip(n.key, rest);
        lemma_i8_bytes_round_trip(id, s1);
        assert(note_bytes(n, version).unwrap() + rest =~= i8_bytes(id) + s1);
    }
}

} // verus!
