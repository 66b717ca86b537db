//! Write records: the logical values stored in the write index.
//!
//! A committed transaction leaves one record per written key, keyed by the
//! commit timestamp. The record carries the kind of the write (`Put`,
//! `Delete`, `Lock` or `Rollback`), the start timestamp of the transaction
//! that produced it, and, for a `Put` of a small value, the value itself
//! inlined; a `Put` without an inlined value points (via the start timestamp)
//! into the value store.
//!
//! Records travel through the write index as bytes; the codec here is exact:
//! `parse` accepts precisely the encodings `to_bytes` produces.

use vstd::prelude::*;
use vstd::bytes::{
    spec_u64_to_le_bytes,
    spec_u64_from_le_bytes,
    u64_to_le_bytes,
    u64_from_le_bytes,
    lemma_auto_spec_u64_to_from_le_bytes,
};
use crate::types::Error;
use crate::lex::copy_range;

verus! {

/// The tag byte of a `Put` record.
pub const TAG_PUT: u8 = 0x50;

/// The tag byte of a `Delete` record.
pub const TAG_DELETE: u8 = 0x44;

/// The tag byte of a `Lock` record.
pub const TAG_LOCK: u8 = 0x4c;

/// The tag byte of a `Rollback` record.
pub const TAG_ROLLBACK: u8 = 0x52;

/// The marker byte that announces an inlined short value.
pub const SHORT_VALUE_FLAG: u8 = 0x76;

/// The kind of event a write record describes.
///
/// `Put` and `Delete` are decisive: they settle what a read at or above their
/// commit timestamp sees. `Lock` and `Rollback` are bookkeeping records that
/// a read skips transparently.
#[derive(Clone, Copy, Debug, PartialEq, Eq, Structural)]
pub enum WriteType {
    /// A real value write.
    Put,
    /// A tombstone: the key was deleted at this version.
    Delete,
    /// Bookkeeping left by a committed lock-only operation; skipped by reads.
    Lock,
    /// Bookkeeping left by a rolled-back transaction; skipped by reads.
    Rollback,
}

impl WriteType {
    /// Whether a record of this kind settles a read that reaches it.
    pub open spec fn is_decisive(self) -> bool {
        self == WriteType::Put || self == WriteType::Delete
    }
}

/// The mathematical view of a write record.
pub struct WriteV {
    /// The kind of the write.
    pub write_type: WriteType,
    /// The start timestamp of the transaction that produced the record.
    pub start_ts: u64,
    /// The inlined short value, if the record carries one.
    pub short_value: Option<Seq<u8>>,
}

/// A write record.
#[derive(Debug, PartialEq, Eq)]
pub struct Write {
    /// The kind of the write.
    pub write_type: WriteType,
    /// The start timestamp of the transaction that produced the record. For a
    /// `Put` without an inlined value this is the key suffix under which the
    /// payload is stored in the value store.
    pub start_ts: u64,
    /// The inlined short value, if the record carries one.
    pub short_value: Option<Vec<u8>>,
}

impl View for Write {
    type V = WriteV;

    open spec fn view(&self) -> WriteV {
        WriteV {
            write_type: self.write_type,
            start_ts: self.start_ts,
            short_value: match self.short_value {
                Some(v) => Some(v@),
                None => None,
            },
        }
    }
}

/// The write type a tag byte stands for, if any.
pub open spec fn write_type_of_tag(tag: u8) -> Option<WriteType> {
    if tag == TAG_PUT {
        Some(WriteType::Put)
    } else if tag == TAG_DELETE {
        Some(WriteType::Delete)
    } else if tag == TAG_LOCK {
        Some(WriteType::Lock)
    } else if tag == TAG_ROLLBACK {
        Some(WriteType::Rollback)
    } else {
        None
    }
}

/// The tag byte of a write type.
pub open spec fn tag_of_write_type(t: WriteType) -> u8 {
    match t {
        WriteType::Put => TAG_PUT,
        WriteType::Delete => TAG_DELETE,
        WriteType::Lock => TAG_LOCK,
        WriteType::Rollback => TAG_ROLLBACK,
    }
}

/// A record can be encoded when its short value, if any, fits the one-byte
/// length field.
pub open spec fn write_wf(w: WriteV) -> bool {
    match w.short_value {
        Some(v) => v.len() <= 255,
        None => true,
    }
}

/// What a byte sequence decodes to: a tag byte, eight bytes of start
/// timestamp, and either nothing or a short-value marker, a one-byte length
/// and exactly that many value bytes. Anything else is malformed.
pub open spec fn parse_write(s: Seq<u8>) -> Option<WriteV> {
    if s.len() < 9 {
        None
    } else {
        match write_type_of_tag(s[0]) {
            None => None,
            Some(t) => {
                let ts = spec_u64_from_le_bytes(s.subrange(1, 9));
                if s.len() == 9 {
                    Some(WriteV { write_type: t, start_ts: ts, short_value: None })
                } else if s.len() >= 11 && s[9] == SHORT_VALUE_FLAG && s[10] as int == s.len() - 11 {
                    Some(
                        WriteV {
                            write_type: t,
                            start_ts: ts,
                            short_value: Some(s.subrange(11, s.len() as int)),
                        },
                    )
                } else {
                    None
                }
            },
        }
    }
}

/// The encoding of a record.
pub open spec fn encode_write(w: WriteV) -> Seq<u8> {
    seq![tag_of_write_type(w.write_type)] + spec_u64_to_le_bytes(w.start_ts) + match w
        .short_value {
        None => Seq::<u8>::empty(),
        Some(v) => seq![SHORT_VALUE_FLAG, v.len() as u8] + v,
    }
}

/// The codec round trip: every encodable record decodes back to itself.
pub proof fn lemma_write_round_trip(w: WriteV)
    requires
        write_wf(w),
    ensures
        parse_write(encode_write(w)) == Some(w),
{
    lemma_auto_spec_u64_to_from_le_bytes();
    let s = encode_write(w);
    assert(s.subrange(1, 9) =~= spec_u64_to_le_bytes(w.start_ts));
    match w.short_value {
        None => {
            assert(s.len() == 9);
        },
        Some(v) => {
            assert(s.len() == 11 + v.len());
            assert(s[9] == SHORT_VALUE_FLAG);
            assert(s[10] == v.len() as u8);
            assert(s.subrange(11, s.len() as int) =~= v);
        },
    }
}

impl Write {
    /// Assemble a record.
    pub fn new(write_type: WriteType, start_ts: u64, short_value: Option<Vec<u8>>) -> (w: Write)
        ensures
            w.write_type == write_type,
            w.start_ts == start_ts,
            w@.short_value == match short_value {
                Some(v) => Some::<Seq<u8>>(v@),
                None => None::<Seq<u8>>,
            },
    {
        Write { write_type, start_ts, short_value }
    }

    /// Encode the record for storage in the write index.
    pub fn to_bytes(&self) -> (r: Vec<u8>)
        requires
            write_wf(self@),
        ensures
            r@ == encode_write(self@),
            parse_write(r@) == Some(self@),
    {
        let tag: u8 = match self.write_type {
            WriteType::Put => TAG_PUT,
            WriteType::Delete => TAG_DELETE,
            WriteType::Lock => TAG_LOCK,
            WriteType::Rollback => TAG_ROLLBACK,
        };
        let mut r: Vec<u8> = Vec::new();
        r.push(tag);
        let mut ts_bytes = u64_to_le_bytes(self.start_ts);
        r.append(&mut ts_bytes);
        match &self.short_value {
            None => {},
            Some(v) => {
                r.push(SHORT_VALUE_FLAG);
                r.push(v.len() as u8);
                let mut tail = crate::lex::copy_bytes(v);
                r.append(&mut tail);
            },
        }
        proof {
            assert(r@ =~= encode_write(self@));
            lemma_write_round_trip(self@);
        }
        r
    }

    /// Decode a record from the write index; a malformed encoding is index
    /// corruption and surfaces as `BadFormatWrite`.
    pub fn parse(bytes: &Vec<u8>) -> (r: Result<Write, Error>)
        ensures
            r.is_ok() == parse_write(bytes@).is_some(),
            r matches Ok(w) ==> parse_write(bytes@) == Some(w@),
            r matches Err(e) ==> e == Error::BadFormatWrite,
    {
        let len = bytes.len();
        if len < 9 {
            return Err(Error::BadFormatWrite);
        }
        let tag = bytes[0];
        let write_type: WriteType = if tag == TAG_PUT {
            WriteType::Put
        } else if tag == TAG_DELETE {
            WriteType::Delete
        } else if tag == TAG_LOCK {
            WriteType::Lock
        } else if tag == TAG_ROLLBACK {
            WriteType::Rollback
        } else {
            return Err(Error::BadFormatWrite);
        };
        let ts_bytes = copy_range(bytes, 1, 9);
        let start_ts = u64_from_le_bytes(ts_bytes.as_slice());
        if len == 9 {
            return Ok(Write { write_type, start_ts, short_value: None });
        }
        if len >= 11 && bytes[9] == SHORT_VALUE_FLAG && bytes[10] as usize == len - 11 {
            let value = copy_range(bytes, 11, len);
            return Ok(Write { write_type, start_ts, short_value: Some(value) });
        }
        Err(Error::BadFormatWrite)
    }
}

} // verus!
